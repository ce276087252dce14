//! The bounded mutation classes of Arandur Level 2 and the verification
//! of a mutation against its class: the target must be the class's path,
//! and the file may only stay as it was or grow.

use vstd::prelude::*;
use crate::missions::view_opt;
use crate::text::{chars_to_string, starts_with_seq, str_chars, str_eq};

verus! {

/// A class of mutation that Level 2 may perform.
#[derive(Debug, Clone, Copy, PartialEq, Eq, Structural)]
pub enum MutationClass {
    RecommendationLedgerAppend,
    EpisodeLedgerAppend,
    RuntimeLevelPromotion,
    MutationEvidenceAppend,
}

/// The class's id.
pub open spec fn class_id_text(c: MutationClass) -> Seq<char> {
    match c {
        MutationClass::RecommendationLedgerAppend => "recommendation_ledger_append"@,
        MutationClass::EpisodeLedgerAppend => "episode_ledger_append"@,
        MutationClass::RuntimeLevelPromotion => "runtime_level_promotion"@,
        MutationClass::MutationEvidenceAppend => "mutation_evidence_append"@,
    }
}

/// The one path the class may mutate.
pub open spec fn class_path_text(c: MutationClass) -> Seq<char> {
    match c {
        MutationClass::RecommendationLedgerAppend => "data/arandur/recommendations.jsonl"@,
        MutationClass::EpisodeLedgerAppend => "data/arandur/episodes.jsonl"@,
        MutationClass::RuntimeLevelPromotion => "core/state/arandur/runtime.json"@,
        MutationClass::MutationEvidenceAppend => "data/arandur/mutation_evidence.jsonl"@,
    }
}

impl MutationClass {
    /// The class's id.
    pub fn class_id(&self) -> (s: &'static str)
        ensures
            s@ == class_id_text(*self),
    {
        match self {
            MutationClass::RecommendationLedgerAppend => "recommendation_ledger_append",
            MutationClass::EpisodeLedgerAppend => "episode_ledger_append",
            MutationClass::RuntimeLevelPromotion => "runtime_level_promotion",
            MutationClass::MutationEvidenceAppend => "mutation_evidence_append",
        }
    }

    /// The one path the class may mutate.
    pub fn path(&self) -> (s: &'static str)
        ensures
            s@ == class_path_text(*self),
    {
        match self {
            MutationClass::RecommendationLedgerAppend => "data/arandur/recommendations.jsonl",
            MutationClass::EpisodeLedgerAppend => "data/arandur/episodes.jsonl",
            MutationClass::RuntimeLevelPromotion => "core/state/arandur/runtime.json",
            MutationClass::MutationEvidenceAppend => "data/arandur/mutation_evidence.jsonl",
        }
    }

    /// The operation the class allows.
    pub fn operation(&self) -> (s: &'static str)
        ensures
            s@ == match *self {
                MutationClass::RecommendationLedgerAppend => "append_jsonl_record_only"@,
                MutationClass::EpisodeLedgerAppend => "append_jsonl_record_only"@,
                MutationClass::RuntimeLevelPromotion => "single_json_object_update_only_after_readiness_gates"@,
                MutationClass::MutationEvidenceAppend => "append_jsonl_evidence_record_only"@,
            },
    {
        match self {
            MutationClass::RecommendationLedgerAppend => "append_jsonl_record_only",
            MutationClass::EpisodeLedgerAppend => "append_jsonl_record_only",
            MutationClass::RuntimeLevelPromotion => "single_json_object_update_only_after_readiness_gates",
            MutationClass::MutationEvidenceAppend => "append_jsonl_evidence_record_only",
        }
    }

    /// The class needs an explicit human approval (the others are allowed
    /// at Level 2).
    pub fn explicit_approval_only(&self) -> (b: bool)
        ensures
            b == (*self == MutationClass::RuntimeLevelPromotion),
    {
        match self {
            MutationClass::RuntimeLevelPromotion => true,
            _ => false,
        }
    }
}

/// The classes, in the order the contract lists them.
pub fn mutation_classes() -> (v: Vec<MutationClass>)
    ensures
        v@ == seq![MutationClass::RecommendationLedgerAppend, MutationClass::EpisodeLedgerAppend,
            MutationClass::RuntimeLevelPromotion, MutationClass::MutationEvidenceAppend],
{
    vec![
        MutationClass::RecommendationLedgerAppend,
        MutationClass::EpisodeLedgerAppend,
        MutationClass::RuntimeLevelPromotion,
        MutationClass::MutationEvidenceAppend,
    ]
}

/// The class with the id, if any.
pub open spec fn class_named(id: Seq<char>) -> Option<MutationClass> {
    if id == "recommendation_ledger_append"@ {
        Some(MutationClass::RecommendationLedgerAppend)
    } else if id == "episode_ledger_append"@ {
        Some(MutationClass::EpisodeLedgerAppend)
    } else if id == "runtime_level_promotion"@ {
        Some(MutationClass::RuntimeLevelPromotion)
    } else if id == "mutation_evidence_append"@ {
        Some(MutationClass::MutationEvidenceAppend)
    } else {
        None
    }
}

/// Looks a class up by its id.
pub fn mutation_class(id: &str) -> (c: Option<MutationClass>)
    ensures
        c == class_named(id@),
{
    if str_eq(id, "recommendation_ledger_append") {
        Some(MutationClass::RecommendationLedgerAppend)
    } else if str_eq(id, "episode_ledger_append") {
        Some(MutationClass::EpisodeLedgerAppend)
    } else if str_eq(id, "runtime_level_promotion") {
        Some(MutationClass::RuntimeLevelPromotion)
    } else if str_eq(id, "mutation_evidence_append") {
        Some(MutationClass::MutationEvidenceAppend)
    } else {
        None
    }
}

/// The path without any leading `./` (`str::trim_start_matches("./")`).
pub open spec fn strip_dot_slash(s: Seq<char>) -> Seq<char>
    decreases s.len(),
{
    if s.len() >= 2 && s[0] == '.' && s[1] == '/' {
        strip_dot_slash(s.subrange(2, s.len() as int))
    } else {
        s
    }
}

/// Removes every leading `./` from a target path.
pub fn normalize_target(target: &str) -> (r: String)
    ensures
        r@ == strip_dot_slash(target@),
{
    let v = str_chars(target);
    let mut a: usize = 0;
    proof {
        assert(v@.subrange(0, v@.len() as int) =~= v@);
    }
    while a < v.len() && v.len() - a >= 2 && v[a] == '.' && v[a + 1] == '/'
        invariant
            a <= v.len(),
            v@ == target@,
            strip_dot_slash(target@) == strip_dot_slash(v@.subrange(a as int, v@.len() as int)),
        decreases v.len() - a,
    {
        proof {
            let sub = v@.subrange(a as int, v@.len() as int);
            assert(sub.subrange(2, sub.len() as int) =~= v@.subrange(a + 2, v@.len() as int));
        }
        a += 2;
    }
    let mut out: Vec<char> = Vec::new();
    let mut i: usize = a;
    while i < v.len()
        invariant
            a <= i <= v.len(),
            out@ == v@.subrange(a as int, i as int),
        decreases v.len() - i,
    {
        out.push(v[i]);
        proof {
            assert(v@.subrange(a as int, i + 1) =~= v@.subrange(a as int, i as int).push(v@[i as int]));
        }
        i += 1;
    }
    chars_to_string(out.as_slice())
}

/// A file's state as a snapshot records it.
pub struct FileSnapshot {
    /// The hex SHA-1 of the content; `None` when the file is absent.
    pub sha1: Option<String>,
    /// The size in bytes; zero when the file is absent.
    pub bytes: Option<u64>,
}

/// The checks of a mutation verification.
pub struct MutationChecks {
    pub target_matches_class: bool,
    pub pre_snapshot_provided: bool,
    pub append_only_size_check: bool,
    pub unchanged_or_append_growth: bool,
    pub json_or_jsonl_valid: bool,
    pub passed: bool,
}

/// The file stayed as it was, or grew: with both snapshots complete, an
/// equal size needs an equal digest and another size must be larger.
pub open spec fn unchanged_or_grown(pre_sha1: Option<Seq<char>>, pre_bytes: Option<u64>, post: FileSnapshot) -> bool {
    match (pre_sha1, pre_bytes, view_opt(post.sha1), post.bytes) {
        (Some(a), Some(b), Some(c), Some(d)) => if d == b { c == a } else { d > b },
        _ => true,
    }
}

/// Verifies a mutation against its class: the (normalized) target must
/// be the class's path, a pre-mutation snapshot must be given, the file
/// must not have shrunk, must be unchanged or grown, and must still
/// parse. It passes only when every check does.
pub fn check_mutation(
    class: MutationClass,
    target: &str,
    pre_sha1: &Option<String>,
    pre_bytes: Option<u64>,
    post: &FileSnapshot,
    json_valid: bool,
) -> (c: MutationChecks)
    ensures
        c.target_matches_class == (target@ == class_path_text(class)),
        c.pre_snapshot_provided == (pre_sha1.is_some() && pre_bytes.is_some()),
        c.append_only_size_check == match (pre_bytes, post.bytes) {
            (Some(b), Some(d)) => d >= b,
            _ => true,
        },
        c.unchanged_or_append_growth == unchanged_or_grown(view_opt(*pre_sha1), pre_bytes, *post),
        c.json_or_jsonl_valid == json_valid,
        c.passed == (c.target_matches_class && c.pre_snapshot_provided && c.append_only_size_check
            && c.unchanged_or_append_growth && c.json_or_jsonl_valid),
{
    let matches = str_eq(target, class.path());
    let provided = pre_sha1.is_some() && pre_bytes.is_some();
    let size_ok = match (pre_bytes, post.bytes) {
        (Some(b), Some(d)) => d >= b,
        _ => true,
    };
    let growth = match (pre_sha1, pre_bytes, &post.sha1, post.bytes) {
        (Some(a), Some(b), Some(c), Some(d)) => if d == b { str_eq(c.as_str(), a.as_str()) } else { d > b },
        _ => true,
    };
    MutationChecks {
        target_matches_class: matches,
        pre_snapshot_provided: provided,
        append_only_size_check: size_ok,
        unchanged_or_append_growth: growth,
        json_or_jsonl_valid: json_valid,
        passed: matches && provided && size_ok && growth && json_valid,
    }
}

/// The verification status as the report writes it.
pub fn verification_status(passed: bool) -> (s: &'static str)
    ensures
        s@ == if passed { "passed"@ } else { "failed_requires_rollback_report"@ },
{
    if passed { "passed" } else { "failed_requires_rollback_report" }
}

/// Law (class ids): looking a class up by its own id gives the class
/// back, and an id that names a class is that class's id.
pub proof fn law_class_ids_round_trip(c: MutationClass, id: Seq<char>)
    ensures
        class_named(class_id_text(c)) == Some(c),
        class_named(id) matches Some(k) ==> class_id_text(k) == id,
{
    reveal_strlit("recommendation_ledger_append");
    reveal_strlit("episode_ledger_append");
    reveal_strlit("runtime_level_promotion");
    reveal_strlit("mutation_evidence_append");
    assert("recommendation_ledger_append"@.len() == 28 && "episode_ledger_append"@.len() == 21);
    assert("runtime_level_promotion"@.len() == 23 && "mutation_evidence_append"@.len() == 24);
}

/// Law (append-only growth): with both snapshots complete, a file that
/// shrank fails, one that kept its size passes only with the same digest,
/// and one that grew passes; without complete snapshots nothing fails.
pub proof fn law_unchanged_or_grown(pre_sha1: Option<Seq<char>>, pre_bytes: Option<u64>, post: FileSnapshot)
    ensures
        (pre_sha1 is Some && pre_bytes is Some && post.sha1 is Some && post.bytes is Some) ==> {
            &&& post.bytes.unwrap() < pre_bytes.unwrap() ==> !unchanged_or_grown(pre_sha1, pre_bytes, post)
            &&& post.bytes.unwrap() > pre_bytes.unwrap() ==> unchanged_or_grown(pre_sha1, pre_bytes, post)
            &&& post.bytes.unwrap() == pre_bytes.unwrap() ==> (unchanged_or_grown(pre_sha1, pre_bytes, post)
                <==> post.sha1.unwrap()@ == pre_sha1.unwrap())
        },
        !(pre_sha1 is Some && pre_bytes is Some && post.sha1 is Some && post.bytes is Some)
            ==> unchanged_or_grown(pre_sha1, pre_bytes, post),
{
}

} // verus!
