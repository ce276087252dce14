//! Arandur scouting: identifiers, read-only scout mission plans (phase
//! 6B) and the review-gated recording of a scout finding (phase 6C).

use vstd::prelude::*;
use crate::text::{
    ascii_lower, chars_to_string, decimal, is_ascii_alnum, owned, push_decimal, push_str, str_chars,
    str_eq, str_trim, to_ascii_lower, ascii_alnum, trim_seq,
};

verus! {

/// Each ASCII letter or digit lower-cased, anything else `_`.
pub open spec fn id_chars(s: Seq<char>) -> Seq<char> {
    s.map_values(|c: char| if is_ascii_alnum(c) { ascii_lower(c) } else { '_' })
}

/// The number of leading `_`.
pub open spec fn leading_underscores(s: Seq<char>) -> nat
    decreases s.len(),
{
    if s.len() > 0 && s[0] == '_' { 1 + leading_underscores(s.drop_first()) } else { 0 }
}

/// The number of trailing `_`.
pub open spec fn trailing_underscores(s: Seq<char>) -> nat
    decreases s.len(),
{
    if s.len() > 0 && s.last() == '_' { 1 + trailing_underscores(s.drop_last()) } else { 0 }
}

/// `s.trim_matches('_')`.
pub open spec fn strip_underscores(s: Seq<char>) -> Seq<char> {
    let a = leading_underscores(s) as int;
    if a >= s.len() { Seq::empty() } else { s.subrange(a, s.len() - trailing_underscores(s) as int) }
}

/// An identifier made from free text: lower-case ASCII letters, digits and
/// inner underscores; `mission` when nothing is left.
pub open spec fn identifier_of(s: Seq<char>) -> Seq<char> {
    let t = strip_underscores(id_chars(s));
    if t.len() == 0 { "mission"@ } else { t }
}

proof fn lemma_leading_us(s: Seq<char>, i: int)
    requires
        0 <= i <= s.len(),
        forall|j: int| 0 <= j < i ==> s[j] == '_',
        i == s.len() || s[i] != '_',
    ensures
        leading_underscores(s) == i,
    decreases i,
{
    if i > 0 {
        lemma_leading_us(s.drop_first(), i - 1);
    }
}

proof fn lemma_trailing_us(s: Seq<char>, k: int)
    requires
        0 <= k <= s.len(),
        forall|j: int| s.len() - k <= j < s.len() ==> s[j] == '_',
        k == s.len() || s[s.len() - k - 1] != '_',
    ensures
        trailing_underscores(s) == k,
    decreases k,
{
    if k > 0 {
        lemma_trailing_us(s.drop_last(), k - 1);
    }
}

/// A character an identifier may hold: a lower-case ASCII letter, a digit
/// or `_`.
pub open spec fn is_identifier_char(c: char) -> bool {
    ('a' <= c && c <= 'z') || ('0' <= c && c <= '9') || c == '_'
}

/// The ASCII letters and digits of a text, lower-cased, in order.
pub open spec fn alnum_lowered(s: Seq<char>) -> Seq<char>
    decreases s.len(),
{
    if s.len() == 0 {
        Seq::empty()
    } else {
        alnum_lowered(s.drop_last()) + if is_ascii_alnum(s.last()) { seq![ascii_lower(s.last())] } else { Seq::empty() }
    }
}

proof fn lemma_lower_alnum(c: char)
    ensures
        is_ascii_alnum(c) ==> is_ascii_alnum(ascii_lower(c)) && ascii_lower(ascii_lower(c)) == ascii_lower(c)
            && is_identifier_char(ascii_lower(c)) && ascii_lower(c) != '_',
        is_identifier_char(c) && c != '_' ==> is_ascii_alnum(c) && ascii_lower(c) == c,
{
    if 'A' <= c && c <= 'Z' {
        assert((c as u32) + 32 <= 'z' as u32);
        assert('a' <= ((c as u32) + 32) as char);
    }
}

proof fn lemma_alnum_lowered_concat(x: Seq<char>, y: Seq<char>)
    ensures
        alnum_lowered(x + y) == alnum_lowered(x) + alnum_lowered(y),
    decreases y.len(),
{
    if y.len() == 0 {
        assert(x + y =~= x);
    } else {
        lemma_alnum_lowered_concat(x, y.drop_last());
        assert((x + y).drop_last() =~= x + y.drop_last());
        assert((x + y).last() == y.last());
    }
}

proof fn lemma_alnum_lowered_of_id_chars(s: Seq<char>)
    ensures
        alnum_lowered(id_chars(s)) == alnum_lowered(s),
        forall|i: int| 0 <= i < id_chars(s).len() ==> is_identifier_char(#[trigger] id_chars(s)[i]),
    decreases s.len(),
{
    if s.len() > 0 {
        lemma_alnum_lowered_of_id_chars(s.drop_last());
        assert(id_chars(s).drop_last() =~= id_chars(s.drop_last()));
        lemma_lower_alnum(s.last());
        assert forall|i: int| 0 <= i < id_chars(s).len() implies is_identifier_char(#[trigger] id_chars(s)[i]) by {
            if i < s.len() - 1 {
                assert(id_chars(s)[i] == id_chars(s.drop_last())[i]);
            }
            lemma_lower_alnum(s[i]);
        }
    }
}

proof fn lemma_underscores_have_no_alnum(s: Seq<char>)
    requires
        forall|i: int| 0 <= i < s.len() ==> s[i] == '_',
    ensures
        alnum_lowered(s).len() == 0,
    decreases s.len(),
{
    if s.len() > 0 {
        lemma_underscores_have_no_alnum(s.drop_last());
    }
}

proof fn lemma_leading_us_facts(s: Seq<char>)
    ensures
        leading_underscores(s) <= s.len(),
        forall|j: int| 0 <= j < leading_underscores(s) ==> s[j] == '_',
        leading_underscores(s) < s.len() ==> s[leading_underscores(s) as int] != '_',
    decreases s.len(),
{
    if s.len() > 0 && s[0] == '_' {
        lemma_leading_us_facts(s.drop_first());
        assert forall|j: int| 0 <= j < leading_underscores(s) implies s[j] == '_' by {
            if j > 0 {
                assert(s[j] == s.drop_first()[j - 1]);
            }
        }
    }
}

proof fn lemma_trailing_us_facts(s: Seq<char>)
    ensures
        trailing_underscores(s) <= s.len(),
        forall|j: int| s.len() - trailing_underscores(s) <= j < s.len() ==> s[j] == '_',
        trailing_underscores(s) < s.len() ==> s[s.len() - trailing_underscores(s) - 1] != '_',
    decreases s.len(),
{
    if s.len() > 0 && s.last() == '_' {
        lemma_trailing_us_facts(s.drop_last());
        assert forall|j: int| s.len() - trailing_underscores(s) <= j < s.len() implies s[j] == '_' by {
            if j < s.len() - 1 {
                assert(s[j] == s.drop_last()[j]);
            }
        }
    }
}

/// Law: an identifier is never empty, holds only lower-case ASCII letters,
/// digits and `_`, neither starts nor ends with `_`, keeps the letters and
/// digits of the text (lower-cased, in order) or is `mission` when the text
/// has none, and making an identifier of it again changes nothing.
pub proof fn law_identifier_shape(s: Seq<char>)
    ensures
        identifier_of(s).len() > 0,
        forall|i: int| 0 <= i < identifier_of(s).len() ==> is_identifier_char(#[trigger] identifier_of(s)[i]),
        identifier_of(s)[0] != '_',
        identifier_of(s)[identifier_of(s).len() - 1] != '_',
        alnum_lowered(s).len() > 0 ==> alnum_lowered(identifier_of(s)) == alnum_lowered(s),
        alnum_lowered(s).len() == 0 ==> identifier_of(s) == "mission"@,
        identifier_of(identifier_of(s)) == identifier_of(s),
{
    reveal_strlit("mission");
    let m = id_chars(s);
    lemma_alnum_lowered_of_id_chars(s);
    lemma_leading_us_facts(m);
    lemma_trailing_us_facts(m);
    let a = leading_underscores(m) as int;
    let r = identifier_of(s);
    if a >= m.len() {
        lemma_underscores_have_no_alnum(m);
        let w = "mission"@;
        assert(r == w);
        assert forall|i: int| 0 <= i < w.len() implies is_identifier_char(#[trigger] w[i]) && w[i] != '_' by {}
        lemma_identity_on_identifier(w);
    } else {
        let e = m.len() - trailing_underscores(m) as int;
        assert(e > a) by {
            if e <= a {
                assert(m[a] == '_');
            }
        }
        let t = m.subrange(a, e);
        assert(r == t);
        assert(t[0] == m[a]);
        assert(t[t.len() - 1] == m[e - 1]);
        assert forall|i: int| 0 <= i < t.len() implies is_identifier_char(#[trigger] t[i]) by {
            assert(t[i] == m[a + i]);
        }
        assert(m =~= m.subrange(0, a) + t + m.subrange(e, m.len() as int));
        lemma_alnum_lowered_concat(m.subrange(0, a) + t, m.subrange(e, m.len() as int));
        lemma_alnum_lowered_concat(m.subrange(0, a), t);
        lemma_underscores_have_no_alnum(m.subrange(0, a));
        lemma_underscores_have_no_alnum(m.subrange(e, m.len() as int));
        assert(alnum_lowered(m) =~= alnum_lowered(t));
        lemma_lower_alnum(t[0]);
        assert(t =~= t.subrange(0, 1) + t.subrange(1, t.len() as int));
        lemma_alnum_lowered_concat(t.subrange(0, 1), t.subrange(1, t.len() as int));
        let h = t.subrange(0, 1);
        assert(h.drop_last() =~= Seq::<char>::empty());
        assert(alnum_lowered(h.drop_last()).len() == 0);
        assert(h.last() == t[0]);
        assert(is_ascii_alnum(t[0]));
        assert(alnum_lowered(h).len() == 1);
        lemma_identity_on_identifier(t);
    }
}

/// An identifier-shaped text is its own identifier.
proof fn lemma_identity_on_identifier(t: Seq<char>)
    requires
        t.len() > 0,
        forall|i: int| 0 <= i < t.len() ==> is_identifier_char(#[trigger] t[i]),
        t[0] != '_',
        t[t.len() - 1] != '_',
    ensures
        identifier_of(t) == t,
{
    assert forall|i: int| 0 <= i < t.len() implies #[trigger] id_chars(t)[i] == t[i] by {
        lemma_lower_alnum(t[i]);
    }
    assert(id_chars(t) =~= t);
    lemma_leading_us(t, 0);
    lemma_trailing_us(t, 0);
    assert(strip_underscores(t) =~= t);
}

/// Turns free text into an identifier.
pub fn sanitize_identifier(value: &str) -> (r: String)
    ensures
        r@ == identifier_of(value@),
{
    let v = str_chars(value);
    let mut m: Vec<char> = Vec::new();
    let mut i: usize = 0;
    while i < v.len()
        invariant
            i <= v.len(),
            v@ == value@,
            m@ == id_chars(v@.subrange(0, i as int)),
        decreases v.len() - i,
    {
        let c = v[i];
        m.push(if ascii_alnum(c) { to_ascii_lower(c) } else { '_' });
        proof {
            assert(id_chars(v@.subrange(0, i + 1)) =~= id_chars(v@.subrange(0, i as int)).push(
                if is_ascii_alnum(c) { ascii_lower(c) } else { '_' },
            ));
        }
        i += 1;
    }
    proof {
        assert(v@.subrange(0, v@.len() as int) =~= v@);
    }
    let mut a: usize = 0;
    while a < m.len() && m[a] == '_'
        invariant
            a <= m.len(),
            forall|j: int| 0 <= j < a ==> m@[j] == '_',
        decreases m.len() - a,
    {
        a += 1;
    }
    proof {
        lemma_leading_us(m@, a as int);
    }
    if a == m.len() {
        return owned("mission");
    }
    let mut k: usize = 0;
    while k < m.len() - a && m[m.len() - 1 - k] == '_'
        invariant
            a < m.len(),
            k <= m.len() - a,
            forall|j: int| m.len() - k <= j < m.len() ==> m@[j] == '_',
        decreases m.len() - a - k,
    {
        k += 1;
    }
    proof {
        if k == m.len() - a {
            assert(m@[a as int] == '_');
        }
        lemma_trailing_us(m@, k as int);
    }
    let end = m.len() - k;
    let mut out: Vec<char> = Vec::new();
    let mut p: usize = a;
    while p < end
        invariant
            a <= p <= end,
            end <= m.len(),
            out@ == m@.subrange(a as int, p as int),
        decreases end - p,
    {
        out.push(m[p]);
        proof {
            assert(m@.subrange(a as int, p + 1) =~= m@.subrange(a as int, p as int).push(m@[p as int]));
        }
        p += 1;
    }
    chars_to_string(out.as_slice())
}

/// A text field as the ledgers read it: trimmed, and absent when blank.
pub open spec fn text_field(v: Option<String>) -> Option<Seq<char>> {
    match v {
        Some(s) => if trim_seq(s@).len() > 0 { Some(trim_seq(s@)) } else { None },
        None => None,
    }
}

/// Reads a text field: trimmed, `None` when absent or blank.
pub fn read_text_field(v: &Option<String>) -> (r: Option<String>)
    ensures
        match r {
            Some(s) => text_field(*v) == Some(s@),
            None => text_field(*v) is None,
        },
{
    match v {
        Some(s) => {
            let t = str_trim(s.as_str());
            if t.len() > 0 { Some(chars_to_string(t.as_slice())) } else { None }
        },
        None => None,
    }
}

/// A recommendation ledger record, as the scout planner reads it.
pub struct ScoutRecommendation {
    pub review_required: Option<bool>,
    pub recommended_candidate_id: Option<String>,
    pub recommendation_id: Option<String>,
    pub summary: Option<String>,
    pub title: Option<String>,
}

/// A task queue record, as the scout planner reads it.
pub struct ScoutTask {
    pub id: Option<String>,
    pub status: Option<String>,
    pub title: Option<String>,
    pub summary: Option<String>,
}

/// Where a scout mission comes from.
#[derive(Debug, Clone, Copy, PartialEq, Eq, Structural)]
pub enum MissionSource {
    RecommendationLedger,
    CanonicalQueueReadOnly,
    ProtocolDefault,
}

/// A planned read-only scout mission.
pub struct ScoutMission {
    pub mission_id: String,
    pub summary: String,
    pub source: MissionSource,
}

/// A mission as text: id, summary and source.
pub open spec fn mission_view(m: ScoutMission) -> (Seq<char>, Seq<char>, MissionSource) {
    (m.mission_id@, m.summary@, m.source)
}

/// The first present value, else the default.
pub open spec fn first_text(a: Option<Seq<char>>, b: Option<Seq<char>>, d: Seq<char>) -> Seq<char> {
    match a {
        Some(x) => x,
        None => match b {
            Some(y) => y,
            None => d,
        },
    }
}

/// The mission a review-gated recommendation proposes.
pub open spec fn recommendation_mission(r: ScoutRecommendation) -> (Seq<char>, Seq<char>, MissionSource) {
    let seed = first_text(opt_view(r.recommended_candidate_id), opt_view(r.recommendation_id), "recommendation_seed"@);
    let summary = first_text(text_field(r.summary), text_field(r.title), "Review-gated scout mission candidate from "@ + seed);
    ("phase6b_scout_"@ + identifier_of(seed), summary, MissionSource::RecommendationLedger)
}

/// The mission an open queue task proposes.
pub open spec fn task_mission(t: ScoutTask) -> (Seq<char>, Seq<char>, MissionSource) {
    let seed = match t.id {
        Some(id) => id@,
        None => "queue_seed"@,
    };
    let title = first_text(text_field(t.title), text_field(t.summary), "Read-only scout planning for queue item "@ + seed);
    ("phase6b_scout_"@ + identifier_of(seed), title, MissionSource::CanonicalQueueReadOnly)
}

/// The `n`-th default mission (counting from one).
pub open spec fn default_mission(n: nat, scope: Seq<char>) -> (Seq<char>, Seq<char>, MissionSource) {
    ("phase6b_scout_"@ + identifier_of("phase6b_scout_"@ + decimal(n)), "Plan a bounded read-only scout mission for "@ + scope,
        MissionSource::ProtocolDefault)
}

/// The optional text as a view.
pub open spec fn opt_view(v: Option<String>) -> Option<Seq<char>> {
    match v {
        Some(s) => Some(s@),
        None => None,
    }
}

/// The task is still open for scouting: not completed or cancelled.
pub open spec fn task_open(t: ScoutTask) -> bool {
    let st = match text_field(t.status) {
        Some(s) => s,
        None => Seq::empty(),
    };
    st != "completed"@ && st != "cancelled"@
}

/// Missions from the review-gated recommendations, in ledger order.
pub open spec fn recommendation_missions(recs: Seq<ScoutRecommendation>) -> Seq<(Seq<char>, Seq<char>, MissionSource)>
    decreases recs.len(),
{
    if recs.len() == 0 {
        Seq::empty()
    } else {
        let prev = recommendation_missions(recs.drop_last());
        if recs.last().review_required == Some(true) { prev.push(recommendation_mission(recs.last())) } else { prev }
    }
}

/// Missions from the open queue tasks, in queue order.
pub open spec fn task_missions(tasks: Seq<ScoutTask>) -> Seq<(Seq<char>, Seq<char>, MissionSource)>
    decreases tasks.len(),
{
    if tasks.len() == 0 {
        Seq::empty()
    } else {
        let prev = task_missions(tasks.drop_last());
        if task_open(tasks.last()) { prev.push(task_mission(tasks.last())) } else { prev }
    }
}

/// The number of missions planned: the requested limit, kept within one to ten.
pub open spec fn scout_limit(limit: nat) -> nat {
    if limit < 1 { 1 } else if limit > 10 { 10 } else { limit }
}

/// The plan: recommendation missions first, then queue missions, cut to
/// the limit, then default missions until the limit is reached.
pub open spec fn scout_plan(
    recs: Seq<ScoutRecommendation>,
    tasks: Seq<ScoutTask>,
    scope: Seq<char>,
    limit: nat,
) -> Seq<(Seq<char>, Seq<char>, MissionSource)> {
    let l = scout_limit(limit);
    let found = recommendation_missions(recs) + task_missions(tasks);
    let base = if found.len() <= l { found } else { found.subrange(0, l as int) };
    base + Seq::new((l - base.len()) as nat, |j: int| default_mission((base.len() + j + 1) as nat, scope))
}

fn opt_or(a: &Option<String>, b: &Option<String>, d: &str) -> (r: String)
    ensures
        r@ == first_text(opt_view(*a), opt_view(*b), d@),
{
    match a {
        Some(x) => owned(x.as_str()),
        None => match b {
            Some(y) => owned(y.as_str()),
            None => owned(d),
        },
    }
}

fn field_or(a: &Option<String>, b: &Option<String>, d: Vec<char>) -> (r: String)
    ensures
        r@ == first_text(text_field(*a), text_field(*b), d@),
{
    match read_text_field(a) {
        Some(x) => x,
        None => match read_text_field(b) {
            Some(y) => y,
            None => chars_to_string(d.as_slice()),
        },
    }
}

fn mission_id_for(seed: &str) -> (r: String)
    ensures
        r@ == "phase6b_scout_"@ + identifier_of(seed@),
{
    let ident = sanitize_identifier(seed);
    let mut out: Vec<char> = Vec::new();
    push_str(&mut out, "phase6b_scout_");
    push_str(&mut out, ident.as_str());
    chars_to_string(out.as_slice())
}

fn prefixed(prefix: &str, s: &str) -> (r: Vec<char>)
    ensures
        r@ == prefix@ + s@,
{
    let mut out: Vec<char> = Vec::new();
    push_str(&mut out, prefix);
    push_str(&mut out, s);
    out
}

fn push_mission(out: &mut Vec<ScoutMission>, m: ScoutMission)
    ensures
        final(out)@.map_values(|x: ScoutMission| mission_view(x)) == old(out)@.map_values(|x: ScoutMission| mission_view(x)).push(mission_view(m)),
        final(out)@.len() == old(out)@.len() + 1,
{
    let ghost before = out@.map_values(|x: ScoutMission| mission_view(x));
    out.push(m);
    proof {
        assert(out@.map_values(|x: ScoutMission| mission_view(x)) =~= before.push(mission_view(m)));
    }
}

fn is_task_open(t: &ScoutTask) -> (r: bool)
    ensures
        r == task_open(*t),
{
    match read_text_field(&t.status) {
        Some(s) => !str_eq(s.as_str(), "completed") && !str_eq(s.as_str(), "cancelled"),
        None => {
            proof {
                reveal_strlit("completed");
                reveal_strlit("cancelled");
                assert(Seq::<char>::empty() != "completed"@) by {
                    assert("completed"@.len() == 9);
                }
                assert(Seq::<char>::empty() != "cancelled"@) by {
                    assert("cancelled"@.len() == 9);
                }
            }
            true
        },
    }
}

/// Plans read-only scout missions for `scope`: one per review-gated
/// recommendation, then one per open queue task, up to the limit (kept
/// within one to ten); default protocol missions fill the rest.
pub fn plan_scout_missions(
    recs: &Vec<ScoutRecommendation>,
    tasks: &Vec<ScoutTask>,
    scope: &str,
    limit: usize,
) -> (out: Vec<ScoutMission>)
    ensures
        out@.map_values(|x: ScoutMission| mission_view(x)) == scout_plan(recs@, tasks@, scope@, limit as nat),
        out@.len() == scout_limit(limit as nat),
{
    let l: usize = if limit < 1 { 1 } else if limit > 10 { 10 } else { limit };
    let ghost found = recommendation_missions(recs@) + task_missions(tasks@);
    let ghost base = if found.len() <= l { found } else { found.subrange(0, l as int) };
    let mut out: Vec<ScoutMission> = Vec::new();
    let mut i: usize = 0;
    while i < recs.len() && out.len() < l
        invariant
            i <= recs.len(),
            out@.len() <= l,
            l == scout_limit(limit as nat),
            found == recommendation_missions(recs@) + task_missions(tasks@),
            out@.len() < l ==> out@.map_values(|x: ScoutMission| mission_view(x)) == recommendation_missions(recs@.subrange(0, i as int)),
            out@.len() == l ==> out@.map_values(|x: ScoutMission| mission_view(x)) == found.subrange(0, l as int)
                && recommendation_missions(recs@).len() + task_missions(tasks@).len() >= l,
            out@.len() <= recommendation_missions(recs@.subrange(0, i as int)).len(),
        decreases recs.len() - i,
    {
        proof {
            lemma_rec_missions_prefix(recs@, i as int);
        }
        let r = &recs[i];
        let ghost sub = recs@.subrange(0, i + 1);
        proof {
            assert(sub.drop_last() =~= recs@.subrange(0, i as int));
            assert(sub.last() == recs@[i as int]);
        }
        if r.review_required == Some(true) {
            let seed = opt_or(&r.recommended_candidate_id, &r.recommendation_id, "recommendation_seed");
            let summary = field_or(&r.summary, &r.title, prefixed("Review-gated scout mission candidate from ", seed.as_str()));
            let m = ScoutMission { mission_id: mission_id_for(seed.as_str()), summary, source: MissionSource::RecommendationLedger };
            push_mission(&mut out, m);
        }
        proof {
            assert(recs@.subrange(0, (i + 1) as int) == sub);
            lemma_rec_missions_prefix(recs@, i + 1);
            if out@.len() == l {
                assert(found.subrange(0, l as int) =~= recommendation_missions(sub));
            }
        }
        i += 1;
    }
    proof {
        lemma_rec_missions_prefix(recs@, i as int);
        if out@.len() < l {
            assert(i == recs.len());
            assert(recs@.subrange(0, i as int) =~= recs@);
        }
    }
    let mut j: usize = 0;
    while j < tasks.len() && out.len() < l
        invariant
            j <= tasks.len(),
            out@.len() <= l,
            l == scout_limit(limit as nat),
            found == recommendation_missions(recs@) + task_missions(tasks@),
            out@.len() < l ==> out@.map_values(|x: ScoutMission| mission_view(x)) == recommendation_missions(recs@) + task_missions(tasks@.subrange(0, j as int)),
            out@.len() == l ==> out@.map_values(|x: ScoutMission| mission_view(x)) == found.subrange(0, l as int)
                && found.len() >= l,
        decreases tasks.len() - j,
    {
        proof {
            lemma_task_missions_prefix(tasks@, j as int);
        }
        let t = &tasks[j];
        let ghost sub = tasks@.subrange(0, j + 1);
        proof {
            assert(sub.drop_last() =~= tasks@.subrange(0, j as int));
            assert(sub.last() == tasks@[j as int]);
        }
        if is_task_open(t) {
            let seed = match &t.id {
                Some(id) => owned(id.as_str()),
                None => owned("queue_seed"),
            };
            let title = field_or(&t.title, &t.summary, prefixed("Read-only scout planning for queue item ", seed.as_str()));
            let m = ScoutMission { mission_id: mission_id_for(seed.as_str()), summary: title, source: MissionSource::CanonicalQueueReadOnly };
            let ghost before_len = out@.len();
            push_mission(&mut out, m);
            proof {
                assert(out@.len() == before_len + 1);
            }
        }
        proof {
            assert(tasks@.subrange(0, (j + 1) as int) == sub);
            lemma_task_missions_prefix(tasks@, j + 1);
            if out@.len() == l {
                assert(found.subrange(0, l as int) =~= recommendation_missions(recs@) + task_missions(sub));
            }
        }
        j += 1;
    }
    proof {
        if out@.len() < l {
            assert(tasks@.subrange(0, j as int) =~= tasks@);
            assert(out@.map_values(|x: ScoutMission| mission_view(x)) == found);
            assert(base == found);
        } else {
            assert(base == found.subrange(0, l as int));
        }
    }
    let ghost fixed = out@.map_values(|x: ScoutMission| mission_view(x));
    while out.len() < l
        invariant
            out@.len() <= l,
            l == scout_limit(limit as nat),
            fixed == base,
            base.len() <= l,
            out@.len() >= base.len(),
            out@.map_values(|x: ScoutMission| mission_view(x)) == base + Seq::new((out@.len() - base.len()) as nat, |k: int| default_mission((base.len() + k + 1) as nat, scope@)),
        decreases l - out.len(),
    {
        let n = out.len() + 1;
        let mut seed: Vec<char> = Vec::new();
        push_str(&mut seed, "phase6b_scout_");
        push_decimal(&mut seed, n as u64);
        let seed_s = chars_to_string(seed.as_slice());
        let m = ScoutMission {
            mission_id: mission_id_for(seed_s.as_str()),
            summary: chars_to_string(prefixed("Plan a bounded read-only scout mission for ", scope).as_slice()),
            source: MissionSource::ProtocolDefault,
        };
        let ghost before_len = out@.len();
        push_mission(&mut out, m);
        proof {
            assert(out@.map_values(|x: ScoutMission| mission_view(x)) =~= base + Seq::new((out@.len() - base.len()) as nat, |k: int| default_mission((base.len() + k + 1) as nat, scope@)));
        }
    }
    out
}

proof fn lemma_rec_missions_prefix(recs: Seq<ScoutRecommendation>, i: int)
    requires
        0 <= i <= recs.len(),
    ensures
        recommendation_missions(recs.subrange(0, i)).len() <= recommendation_missions(recs).len(),
        recommendation_missions(recs) == recommendation_missions(recs.subrange(0, i)) + recommendation_missions(recs).subrange(
            recommendation_missions(recs.subrange(0, i)).len() as int,
            recommendation_missions(recs).len() as int,
        ),
    decreases recs.len() - i,
{
    if i < recs.len() {
        lemma_rec_missions_prefix(recs.drop_last(), i);
        assert(recs.drop_last().subrange(0, i) =~= recs.subrange(0, i));
        let a = recommendation_missions(recs.subrange(0, i));
        let b = recommendation_missions(recs.drop_last());
        let c = recommendation_missions(recs);
        assert(c.subrange(0, b.len() as int) =~= b);
        assert(c =~= a + c.subrange(a.len() as int, c.len() as int));
    } else {
        assert(recs.subrange(0, i) =~= recs);
        let c = recommendation_missions(recs);
        assert(c =~= c + c.subrange(c.len() as int, c.len() as int));
    }
}

proof fn lemma_task_missions_prefix(tasks: Seq<ScoutTask>, i: int)
    requires
        0 <= i <= tasks.len(),
    ensures
        task_missions(tasks.subrange(0, i)).len() <= task_missions(tasks).len(),
        task_missions(tasks) == task_missions(tasks.subrange(0, i)) + task_missions(tasks).subrange(
            task_missions(tasks.subrange(0, i)).len() as int,
            task_missions(tasks).len() as int,
        ),
    decreases tasks.len() - i,
{
    if i < tasks.len() {
        lemma_task_missions_prefix(tasks.drop_last(), i);
        assert(tasks.drop_last().subrange(0, i) =~= tasks.subrange(0, i));
        let a = task_missions(tasks.subrange(0, i));
        let b = task_missions(tasks.drop_last());
        let c = task_missions(tasks);
        assert(c.subrange(0, b.len() as int) =~= b);
        assert(c =~= a + c.subrange(a.len() as int, c.len() as int));
    } else {
        assert(tasks.subrange(0, i) =~= tasks);
        let c = task_missions(tasks);
        assert(c =~= c + c.subrange(c.len() as int, c.len() as int));
    }
}


/// The trimmed, non-empty source URLs, in order.
pub open spec fn trimmed_urls(urls: Seq<String>) -> Seq<Seq<char>>
    decreases urls.len(),
{
    if urls.len() == 0 {
        Seq::empty()
    } else {
        let prev = trimmed_urls(urls.drop_last());
        if trim_seq(urls.last()@).len() > 0 { prev.push(trim_seq(urls.last()@)) } else { prev }
    }
}

/// Normalizes the cited source URLs: trimmed, blanks dropped, sorted,
/// without repeats.
pub fn normalize_source_urls(urls: &Vec<String>) -> (out: Vec<String>)
    ensures
        crate::ordering::strictly_sorted(out.deep_view()),
        out.deep_view().to_set() == trimmed_urls(urls@).to_set(),
{
    let mut t: Vec<String> = Vec::new();
    let mut i: usize = 0;
    while i < urls.len()
        invariant
            i <= urls.len(),
            t.deep_view() == trimmed_urls(urls@.subrange(0, i as int)),
        decreases urls.len() - i,
    {
        proof {
            assert(urls@.subrange(0, i + 1).drop_last() =~= urls@.subrange(0, i as int));
        }
        let v = str_trim(urls[i].as_str());
        if v.len() > 0 {
            let ghost before = t.deep_view();
            t.push(chars_to_string(v.as_slice()));
            proof {
                assert(t.deep_view() =~= before.push(trim_seq(urls@[i as int]@)));
            }
        }
        i += 1;
    }
    proof {
        assert(urls@.subrange(0, urls@.len() as int) =~= urls@);
    }
    crate::ordering::sorted_distinct(&t)
}

/// Why a scout execution is refused.
#[derive(Debug, Clone, Copy, PartialEq, Eq, Structural)]
pub enum ScoutExecError {
    /// The mission id is blank.
    MissingMissionId,
    /// A write was requested without a non-blank justification.
    MissingJustification,
}

/// Checks a scout execution request: the trimmed mission id must not be
/// blank, and a write needs a non-blank justification. Returns the
/// trimmed mission id.
pub fn check_scout_execution(mission_id: &str, write: bool, justification: &Option<String>) -> (r: Result<String, ScoutExecError>)
    ensures
        trim_seq(mission_id@).len() == 0 ==> r == Err::<String, ScoutExecError>(ScoutExecError::MissingMissionId),
        trim_seq(mission_id@).len() > 0 && write && text_field(*justification) is None
            ==> r == Err::<String, ScoutExecError>(ScoutExecError::MissingJustification),
        trim_seq(mission_id@).len() > 0 && !(write && text_field(*justification) is None)
            ==> (r matches Ok(m) && m@ == trim_seq(mission_id@)),
{
    let m = str_trim(mission_id);
    if m.len() == 0 {
        return Err(ScoutExecError::MissingMissionId);
    }
    if write && read_text_field(justification).is_none() {
        return Err(ScoutExecError::MissingJustification);
    }
    Ok(chars_to_string(m.as_slice()))
}

/// The outcome of recording a scout finding (or a pattern synthesis):
/// whether the record is appended, and the status.
pub fn finding_write_outcome(write: bool, already_recorded: bool) -> (r: (bool, &'static str))
    ensures
        r.0 == (write && !already_recorded),
        r.1@ == if !write {
            "dry_run_no_mutation"@
        } else if already_recorded {
            "already_recorded_idempotent_noop"@
        } else {
            "scout_finding_recorded"@
        },
{
    if !write {
        (false, "dry_run_no_mutation")
    } else if already_recorded {
        (false, "already_recorded_idempotent_noop")
    } else {
        (true, "scout_finding_recorded")
    }
}

/// The preview of a scout's evidence: its first 240 characters (with an
/// ellipsis when cut), or the note that no evidence was supplied.
pub fn evidence_preview(content: &Option<String>) -> (s: String)
    ensures
        s@ == match content {
            Some(c) => crate::text::take_chars(c@, 240) + if c@.len() > 240 { seq!['…'] } else { Seq::empty() },
            None => "no evidence file supplied; finding remains review-only"@,
        },
{
    match content {
        Some(c) => {
            let v = str_chars(c.as_str());
            let mut out = crate::text::take_chars_exec(&v, 240);
            if v.len() > 240 {
                out.push('…');
            }
            proof {
                if v.len() <= 240 {
                    assert(out@ =~= crate::text::take_chars(c@, 240) + Seq::<char>::empty());
                }
            }
            chars_to_string(out.as_slice())
        },
        None => owned("no evidence file supplied; finding remains review-only"),
    }
}

/// Law (scout plan size): a scout plans between one and ten missions,
/// exactly the requested number when that is within those bounds; the
/// found missions come first, in order, as far as the plan reaches.
pub proof fn law_scout_plan_size(recs: Seq<ScoutRecommendation>, tasks: Seq<ScoutTask>, scope: Seq<char>, limit: nat)
    ensures
        1 <= scout_plan(recs, tasks, scope, limit).len() <= 10,
        1 <= limit <= 10 ==> scout_plan(recs, tasks, scope, limit).len() == limit,
        forall|i: int| 0 <= i < scout_plan(recs, tasks, scope, limit).len()
            && i < (recommendation_missions(recs) + task_missions(tasks)).len()
            ==> #[trigger] scout_plan(recs, tasks, scope, limit)[i] == (recommendation_missions(recs) + task_missions(tasks))[i],
{
}

/// Law (open scout tasks): a task is open for scouting unless its status
/// is "completed" or "cancelled"; a task without a status is open.
pub proof fn law_open_scout_tasks(t: ScoutTask)
    ensures
        task_open(t) <==> !(text_field(t.status) == Some("completed"@) || text_field(t.status) == Some("cancelled"@)),
        text_field(t.status) is None ==> task_open(t),
{
    reveal_strlit("completed");
    reveal_strlit("cancelled");
    assert("completed"@.len() > 0 && "cancelled"@.len() > 0);
}

} // verus!
