//! Phase 6D pattern synthesis: the most frequent queue owner,
//! recommendation domain, scout scope and episode type of the Arandur
//! ledgers, each turned into a review-gated pattern.

use vstd::prelude::*;
use crate::digest_ids::{short_digest_id, short_id};
use crate::ordering::{lex_lt, lemma_lex_total, lemma_lex_trans, str_lt};
use crate::scout::{identifier_of, sanitize_identifier};
use crate::tally::{KeyCount, is_tally_of, tally};
use crate::text::{chars_to_string, decimal, push_decimal, push_str, str_trim, trim_seq};

verus! {

/// The trimmed, non-empty texts among the field values, in order.
pub open spec fn field_texts(values: Seq<Option<String>>) -> Seq<Seq<char>>
    decreases values.len(),
{
    if values.len() == 0 {
        Seq::empty()
    } else {
        let prev = field_texts(values.drop_last());
        match values.last() {
            Some(v) => if trim_seq(v@).len() > 0 { prev.push(trim_seq(v@)) } else { prev },
            None => prev,
        }
    }
}

/// Counts the trimmed, non-empty values of a string field: one entry per
/// distinct text with its number of records.
pub fn count_text_field(values: &Vec<Option<String>>) -> (out: Vec<KeyCount>)
    ensures
        is_tally_of(field_texts(values@), out@),
{
    let mut texts: Vec<String> = Vec::new();
    let mut i: usize = 0;
    while i < values.len()
        invariant
            i <= values.len(),
            texts.deep_view() == field_texts(values@.subrange(0, i as int)),
        decreases values.len() - i,
    {
        let ghost prev = texts.deep_view();
        proof {
            assert(values@.subrange(0, i + 1).drop_last() =~= values@.subrange(0, i as int));
        }
        match &values[i] {
            Some(v) => {
                let t = str_trim(v.as_str());
                if t.len() > 0 {
                    let s = chars_to_string(t.as_slice());
                    texts.push(s);
                    proof {
                        assert(texts.deep_view() =~= prev.push(trim_seq(v@)));
                    }
                }
            },
            None => {},
        }
        i += 1;
    }
    proof {
        assert(values@.subrange(0, values@.len() as int) =~= values@);
    }
    tally(&texts)
}

/// Entry `j` beats entry `i`: a higher count, or the same count and a
/// key that sorts first.
pub open spec fn beats(counts: Seq<KeyCount>, j: int, i: int) -> bool {
    counts[j].count > counts[i].count
        || (counts[j].count == counts[i].count && lex_lt(counts[j].key@, counts[i].key@))
}

/// Entry `i` is the most frequent, the first key winning a tie.
pub open spec fn is_max_entry(counts: Seq<KeyCount>, i: int) -> bool {
    0 <= i < counts.len() && forall|j: int| 0 <= j < counts.len() ==> !#[trigger] beats(counts, j, i)
}

/// The index of the most frequent entry; `None` when there is none.
pub fn max_count(counts: &Vec<KeyCount>) -> (r: Option<usize>)
    ensures
        r is None <==> counts.len() == 0,
        r matches Some(i) ==> is_max_entry(counts@, i as int),
{
    if counts.len() == 0 {
        return None;
    }
    let mut best: usize = 0;
    let mut j: usize = 1;
    proof {
        lemma_lex_total(counts@[0].key@, counts@[0].key@);
    }
    while j < counts.len()
        invariant
            1 <= j <= counts.len(),
            best < j,
            forall|k: int| 0 <= k < j ==> !#[trigger] beats(counts@, k, best as int),
        decreases counts.len() - j,
    {
        let better = counts[j].count > counts[best].count
            || (counts[j].count == counts[best].count
                && str_lt(counts[j].key.as_str(), counts[best].key.as_str()));
        if better {
            proof {
                let c = counts@;
                assert forall|k: int| 0 <= k < j + 1 implies !#[trigger] beats(c, k, j as int) by {
                    if k == j {
                        lemma_lex_total(c[k].key@, c[k].key@);
                    } else if beats(c, k, j as int) {
                        assert(!beats(c, k, best as int));
                        if c[k].count == c[j as int].count && c[j as int].count == c[best as int].count {
                            lemma_lex_trans(c[k].key@, c[j as int].key@, c[best as int].key@);
                        }
                    }
                }
            }
            best = j;
        }
        j += 1;
    }
    Some(best)
}

/// Two most frequent entries of a tally with distinct keys are the same.
pub proof fn lemma_max_entry_unique(counts: Seq<KeyCount>, a: int, b: int)
    requires
        forall|x: int, y: int| 0 <= x < y < counts.len() ==> counts[x].key@ != counts[y].key@,
        is_max_entry(counts, a),
        is_max_entry(counts, b),
    ensures
        a == b,
{
    assert(!beats(counts, a, b));
    assert(!beats(counts, b, a));
    lemma_lex_total(counts[a].key@, counts[b].key@);
}

/// What a pattern is about.
#[derive(Debug, Clone, Copy, PartialEq, Eq, Structural)]
pub enum PatternKind {
    QueueOwnerFocus,
    RecommendationDomainFocus,
    ScoutScopeFocus,
    EpisodeTypeFocus,
    InsufficientEvidence,
}

impl PatternKind {
    /// The kind as the record writes it.
    pub fn label(&self) -> (s: &'static str)
        ensures
            s@ == match *self {
                PatternKind::QueueOwnerFocus => "queue_owner_focus"@,
                PatternKind::RecommendationDomainFocus => "recommendation_domain_focus"@,
                PatternKind::ScoutScopeFocus => "scout_scope_focus"@,
                PatternKind::EpisodeTypeFocus => "episode_type_focus"@,
                PatternKind::InsufficientEvidence => "insufficient_evidence"@,
            },
    {
        match self {
            PatternKind::QueueOwnerFocus => "queue_owner_focus",
            PatternKind::RecommendationDomainFocus => "recommendation_domain_focus",
            PatternKind::ScoutScopeFocus => "scout_scope_focus",
            PatternKind::EpisodeTypeFocus => "episode_type_focus",
            PatternKind::InsufficientEvidence => "insufficient_evidence",
        }
    }
}

/// A synthesized pattern: its kind, the key it concentrates on, and how
/// many records show it.
pub struct Pattern {
    pub kind: PatternKind,
    pub subject: String,
    pub evidence_count: usize,
}

/// The prefix of a pattern's id.
pub open spec fn id_prefix(k: PatternKind) -> Seq<char> {
    match k {
        PatternKind::QueueOwnerFocus => "queue_owner_focus_"@,
        PatternKind::RecommendationDomainFocus => "recommendation_domain_"@,
        PatternKind::ScoutScopeFocus => "scout_scope_"@,
        PatternKind::EpisodeTypeFocus => "episode_type_"@,
        PatternKind::InsufficientEvidence => "insufficient_evidence"@,
    }
}

/// The pattern's id.
pub open spec fn pattern_id_text(k: PatternKind, subject: Seq<char>) -> Seq<char> {
    match k {
        PatternKind::InsufficientEvidence => "insufficient_evidence"@,
        _ => id_prefix(k) + identifier_of(subject),
    }
}

/// The pattern's summary sentence.
pub open spec fn pattern_summary_text(k: PatternKind, subject: Seq<char>, count: nat) -> Seq<char> {
    match k {
        PatternKind::QueueOwnerFocus => "Task queue currently concentrates around owner `"@ + subject + "` ("@
            + decimal(count) + " records)."@,
        PatternKind::RecommendationDomainFocus => "Recommendation ledger has repeated `"@ + subject
            + "` domain candidates ("@ + decimal(count) + " records)."@,
        PatternKind::ScoutScopeFocus => "Scout findings repeatedly target `"@ + subject + "` ("@
            + decimal(count) + " records)."@,
        PatternKind::EpisodeTypeFocus => "Episode ledger contains `"@ + subject + "` learning events ("@
            + decimal(count) + " records)."@,
        PatternKind::InsufficientEvidence => "No repeated Arandur ledger patterns are available yet; gather review-gated recommendations, scout findings, or episodes first."@,
    }
}

impl Pattern {
    /// The pattern's id: its kind's prefix and the identifier of its key.
    pub fn pattern_id(&self) -> (s: String)
        ensures
            s@ == pattern_id_text(self.kind, self.subject@),
    {
        let mut out: Vec<char> = Vec::new();
        match self.kind {
            PatternKind::InsufficientEvidence => {
                push_str(&mut out, "insufficient_evidence");
                return chars_to_string(out.as_slice());
            },
            PatternKind::QueueOwnerFocus => push_str(&mut out, "queue_owner_focus_"),
            PatternKind::RecommendationDomainFocus => push_str(&mut out, "recommendation_domain_"),
            PatternKind::ScoutScopeFocus => push_str(&mut out, "scout_scope_"),
            PatternKind::EpisodeTypeFocus => push_str(&mut out, "episode_type_"),
        }
        let ident = sanitize_identifier(self.subject.as_str());
        push_str(&mut out, ident.as_str());
        chars_to_string(out.as_slice())
    }

    /// The pattern's summary sentence.
    pub fn summary(&self) -> (s: String)
        ensures
            s@ == pattern_summary_text(self.kind, self.subject@, self.evidence_count as nat),
    {
        let mut out: Vec<char> = Vec::new();
        let (head, tail): (&str, &str) = match self.kind {
            PatternKind::InsufficientEvidence => {
                push_str(&mut out, "No repeated Arandur ledger patterns are available yet; gather review-gated recommendations, scout findings, or episodes first.");
                return chars_to_string(out.as_slice());
            },
            PatternKind::QueueOwnerFocus => ("Task queue currently concentrates around owner `", "` ("),
            PatternKind::RecommendationDomainFocus => ("Recommendation ledger has repeated `", "` domain candidates ("),
            PatternKind::ScoutScopeFocus => ("Scout findings repeatedly target `", "` ("),
            PatternKind::EpisodeTypeFocus => ("Episode ledger contains `", "` learning events ("),
        };
        push_str(&mut out, head);
        push_str(&mut out, self.subject.as_str());
        push_str(&mut out, tail);
        push_decimal(&mut out, self.evidence_count as u64);
        push_str(&mut out, " records).");
        chars_to_string(out.as_slice())
    }
}

/// The keys of a tally are distinct.
pub open spec fn distinct_keys(counts: Seq<KeyCount>) -> bool {
    forall|x: int, y: int| 0 <= x < y < counts.len() ==> counts[x].key@ != counts[y].key@
}

/// The pattern owed for one tally: none for an empty tally, else the
/// kind with the most frequent entry.
pub open spec fn focus(k: PatternKind, counts: Seq<KeyCount>) -> Seq<(PatternKind, Seq<char>, nat)> {
    if counts.len() == 0 {
        Seq::empty()
    } else {
        let i = choose|i: int| is_max_entry(counts, i);
        seq![(k, counts[i].key@, counts[i].count as nat)]
    }
}

/// The patterns owed for the four tallies, in order, or the
/// insufficient-evidence pattern when all are empty.
pub open spec fn patterns_of(
    owners: Seq<KeyCount>,
    domains: Seq<KeyCount>,
    scopes: Seq<KeyCount>,
    episode_types: Seq<KeyCount>,
) -> Seq<(PatternKind, Seq<char>, nat)> {
    let found = focus(PatternKind::QueueOwnerFocus, owners) + focus(PatternKind::RecommendationDomainFocus, domains)
        + focus(PatternKind::ScoutScopeFocus, scopes) + focus(PatternKind::EpisodeTypeFocus, episode_types);
    if found.len() == 0 {
        seq![(PatternKind::InsufficientEvidence, Seq::<char>::empty(), 0nat)]
    } else {
        found
    }
}

/// A pattern as the values it holds.
pub open spec fn pattern_view(p: Pattern) -> (PatternKind, Seq<char>, nat) {
    (p.kind, p.subject@, p.evidence_count as nat)
}

fn push_focus(out: &mut Vec<Pattern>, k: PatternKind, counts: &Vec<KeyCount>)
    requires
        distinct_keys(counts@),
    ensures
        final(out)@.map_values(|p: Pattern| pattern_view(p))
            == old(out)@.map_values(|p: Pattern| pattern_view(p)) + focus(k, counts@),
{
    let ghost before = out@.map_values(|p: Pattern| pattern_view(p));
    match max_count(counts) {
        Some(i) => {
            proof {
                let c = choose|c: int| is_max_entry(counts@, c);
                lemma_max_entry_unique(counts@, c, i as int);
            }
            let p = Pattern { kind: k, subject: counts[i].key.clone(), evidence_count: counts[i].count };
            out.push(p);
            proof {
                assert(out@.map_values(|p: Pattern| pattern_view(p)) =~= before + focus(k, counts@));
            }
        },
        None => {
            proof {
                assert(before + focus(k, counts@) =~= before);
            }
        },
    }
}

/// Synthesizes the patterns: for the queue owners, recommendation
/// domains, scout scopes and episode types in turn, the most frequent key
/// (the first key on a tie) becomes a pattern; with no key at all the
/// single insufficient-evidence pattern is returned.
pub fn build_patterns(
    owners: &Vec<KeyCount>,
    domains: &Vec<KeyCount>,
    scopes: &Vec<KeyCount>,
    episode_types: &Vec<KeyCount>,
) -> (out: Vec<Pattern>)
    requires
        distinct_keys(owners@),
        distinct_keys(domains@),
        distinct_keys(scopes@),
        distinct_keys(episode_types@),
    ensures
        out@.map_values(|p: Pattern| pattern_view(p)) == patterns_of(owners@, domains@, scopes@, episode_types@),
{
    let mut out: Vec<Pattern> = Vec::new();
    proof {
        assert(out@.map_values(|p: Pattern| pattern_view(p)) =~= Seq::<(PatternKind, Seq<char>, nat)>::empty());
    }
    push_focus(&mut out, PatternKind::QueueOwnerFocus, owners);
    push_focus(&mut out, PatternKind::RecommendationDomainFocus, domains);
    push_focus(&mut out, PatternKind::ScoutScopeFocus, scopes);
    push_focus(&mut out, PatternKind::EpisodeTypeFocus, episode_types);
    let ghost found = out@.map_values(|p: Pattern| pattern_view(p));
    proof {
        assert(found =~= focus(PatternKind::QueueOwnerFocus, owners@)
            + focus(PatternKind::RecommendationDomainFocus, domains@)
            + focus(PatternKind::ScoutScopeFocus, scopes@)
            + focus(PatternKind::EpisodeTypeFocus, episode_types@));
    }
    if out.len() == 0 {
        out.push(Pattern { kind: PatternKind::InsufficientEvidence, subject: String::new(), evidence_count: 0 });
        proof {
            assert(out@.map_values(|p: Pattern| pattern_view(p))
                =~= seq![(PatternKind::InsufficientEvidence, Seq::<char>::empty(), 0nat)]);
        }
    }
    out
}

/// The fingerprint of a synthesis: the first twelve hex digits of the
/// SHA-1 of the patterns' JSON text.
pub fn pattern_fingerprint(serialized_patterns: &str) -> (s: String)
    ensures
        s@ == short_id(Seq::empty(), serialized_patterns@),
{
    let empty = String::new();
    short_digest_id(empty.as_str(), serialized_patterns)
}

/// The id of a synthesis record.
pub fn pattern_synthesis_id(fingerprint: &str) -> (s: String)
    ensures
        s@ == "phase6d_patterns_"@ + fingerprint@,
{
    let mut out: Vec<char> = Vec::new();
    push_str(&mut out, "phase6d_patterns_");
    push_str(&mut out, fingerprint);
    chars_to_string(out.as_slice())
}

/// Law (focus patterns): in a tally with distinct keys the most frequent
/// entry (the first key among equals) is the only one, so the focus
/// pattern names it and no entry is counted more often; with all four
/// tallies empty the one pattern is the insufficient-evidence one.
pub proof fn law_focus_is_most_frequent(k: PatternKind, counts: Seq<KeyCount>, m: int)
    requires
        distinct_keys(counts),
        is_max_entry(counts, m),
    ensures
        focus(k, counts) == seq![(k, counts[m].key@, counts[m].count as nat)],
        forall|j: int| 0 <= j < counts.len() ==> (#[trigger] counts[j]).count <= counts[m].count,
        patterns_of(Seq::empty(), Seq::empty(), Seq::empty(), Seq::empty())
            == seq![(PatternKind::InsufficientEvidence, Seq::<char>::empty(), 0nat)],
{
    let i = choose|i: int| is_max_entry(counts, i);
    assert(is_max_entry(counts, i));
    if i != m {
        assert(!beats(counts, i, m));
        assert(!beats(counts, m, i));
        lemma_lex_total(counts[i].key@, counts[m].key@);
        if i < m {
            assert(counts[i].key@ != counts[m].key@);
        } else {
            assert(counts[m].key@ != counts[i].key@);
        }
        assert(false);
    }
    assert forall|j: int| 0 <= j < counts.len() implies (#[trigger] counts[j]).count <= counts[m].count by {
        assert(!beats(counts, j, m));
    }
    let e = Seq::<KeyCount>::empty();
    assert(focus(PatternKind::QueueOwnerFocus, e) + focus(PatternKind::RecommendationDomainFocus, e)
        + focus(PatternKind::ScoutScopeFocus, e) + focus(PatternKind::EpisodeTypeFocus, e) =~= Seq::empty());
}

} // verus!
