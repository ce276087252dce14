//! Deterministic record ids: SHA-1 digests of the identifying text,
//! rendered as lower-case hex and cut to a short prefix.

use vstd::prelude::*;
use crate::text::{chars_to_string, push_str, str_chars};

verus! {

/// The SHA-1 digest of a byte string, as the `sha1` crate computes it.
pub uninterp spec fn sha1_of_bytes(bytes: Seq<u8>) -> Seq<u8>;

/// The SHA-1 digest of the UTF-8 bytes of `text`.
pub open spec fn sha1_of_text(text: Seq<char>) -> Seq<u8> {
    sha1_of_bytes(vstd::utf8::encode_utf8(text))
}

/// `sha1::Sha1::digest` of a byte string. The digest itself is named, not
/// stated; it is always twenty bytes long.
#[verifier::external_body]
fn sha1_digest_bytes(bytes: &[u8]) -> (d: Vec<u8>)
    ensures
        d@ == sha1_of_bytes(bytes@),
        d@.len() == 20,
{
    <sha1::Sha1 as sha1::Digest>::digest(bytes).to_vec()
}

/// The SHA-1 digest of the UTF-8 bytes of `text`.
fn sha1_digest(text: &str) -> (d: Vec<u8>)
    ensures
        d@ == sha1_of_text(text@),
        d@.len() == 20,
{
    sha1_digest_bytes(text.as_bytes())
}

/// The lower-case hex digit of a value below sixteen
/// (`char::from_digit(n, 16)`).
pub open spec fn hex_digit(n: nat) -> char {
    if n < 10 { ((n + 48) as u32) as char } else { ((n + 87) as u32) as char }
}

/// The nibbles of the bytes, high nibble first.
pub open spec fn nibbles(bytes: Seq<u8>) -> Seq<nat>
    decreases bytes.len(),
{
    if bytes.len() == 0 {
        Seq::empty()
    } else {
        let b = bytes.last();
        nibbles(bytes.drop_last()).push((b / 16) as nat).push((b % 16) as nat)
    }
}

/// The first `chars` hex digits of the bytes.
pub open spec fn hex_text(bytes: Seq<u8>, chars: nat) -> Seq<char> {
    let n = nibbles(bytes);
    let k = if chars <= n.len() { chars as int } else { n.len() as int };
    n.subrange(0, k).map_values(|x: nat| hex_digit(x))
}

proof fn lemma_nibbles_len(bytes: Seq<u8>)
    ensures
        nibbles(bytes).len() == 2 * bytes.len(),
        forall|i: int| 0 <= i < nibbles(bytes).len() ==> #[trigger] nibbles(bytes)[i] < 16,
    decreases bytes.len(),
{
    if bytes.len() > 0 {
        lemma_nibbles_len(bytes.drop_last());
    }
}

proof fn lemma_nibbles_prefix(bytes: Seq<u8>, i: int)
    requires
        0 <= i <= bytes.len(),
    ensures
        nibbles(bytes.subrange(0, i)) == nibbles(bytes).subrange(0, 2 * i),
    decreases bytes.len() - i,
{
    lemma_nibbles_len(bytes);
    lemma_nibbles_len(bytes.subrange(0, i));
    if i < bytes.len() {
        lemma_nibbles_prefix(bytes.drop_last(), i);
        lemma_nibbles_len(bytes.drop_last());
        assert(bytes.drop_last().subrange(0, i) =~= bytes.subrange(0, i));
        assert(nibbles(bytes).subrange(0, 2 * i) =~= nibbles(bytes.drop_last()).subrange(0, 2 * i));
    } else {
        assert(bytes.subrange(0, i) =~= bytes);
        assert(nibbles(bytes).subrange(0, 2 * i) =~= nibbles(bytes));
    }
}

fn hex_char(n: u8) -> (c: char)
    requires
        n < 16,
    ensures
        c == hex_digit(n as nat),
{
    if n < 10 {
        ((n + 48) as u32 as u8) as char
    } else {
        ((n + 87) as u32 as u8) as char
    }
}

/// The first `chars` lower-case hex digits of `bytes`, high nibble first.
pub fn hex_prefix(bytes: &Vec<u8>, chars: usize) -> (s: String)
    ensures
        s@ == hex_text(bytes@, chars as nat),
{
    proof {
        lemma_nibbles_len(bytes@);
    }
    let ghost all = nibbles(bytes@);
    let mut out: Vec<char> = Vec::new();
    let mut i: usize = 0;
    while i < bytes.len() && out.len() < chars
        invariant
            i <= bytes.len(),
            all == nibbles(bytes@),
            all.len() == 2 * bytes@.len(),
            out@.len() <= chars,
            out@.len() == 2 * i || (out@.len() == chars && out@.len() <= 2 * i),
            out@ == all.subrange(0, out@.len() as int).map_values(|x: nat| hex_digit(x)),
        decreases bytes.len() - i,
    {
        let b = bytes[i];
        let hi: u8 = b >> 4;
        let lo: u8 = b & 0x0f;
        proof {
            assert(hi == b / 16) by (bit_vector)
                requires
                    hi == b >> 4,
            ;
            assert(lo == b % 16) by (bit_vector)
                requires
                    lo == b & 0x0f,
            ;
            lemma_nibbles_prefix(bytes@, i + 1);
            lemma_nibbles_len(bytes@.subrange(0, i + 1));
            let pre = bytes@.subrange(0, i + 1);
            assert(pre.drop_last() =~= bytes@.subrange(0, i as int));
            assert(pre.last() == b);
            lemma_nibbles_prefix(bytes@, i as int);
            lemma_nibbles_len(bytes@.subrange(0, i as int));
            let np = nibbles(pre);
            assert(np == nibbles(pre.drop_last()).push((b / 16) as nat).push((b % 16) as nat));
            assert(np[2 * i] == (b / 16) as nat);
            assert(np[2 * i + 1] == (b % 16) as nat);
            assert(np == all.subrange(0, 2 * i + 2));
            assert(all[2 * i] == (b / 16) as nat);
            assert(all[2 * i + 1] == (b % 16) as nat);
        }
        let ghost before = out@;
        out.push(hex_char(hi));
        proof {
            assert(out@ =~= all.subrange(0, out@.len() as int).map_values(|x: nat| hex_digit(x)));
        }
        if out.len() < chars {
            out.push(hex_char(lo));
            proof {
                assert(out@ =~= all.subrange(0, out@.len() as int).map_values(|x: nat| hex_digit(x)));
            }
        }
        i += 1;
    }
    proof {
        let k = if chars <= all.len() { chars as int } else { all.len() as int };
        assert(out@.len() == k);
    }
    chars_to_string(out.as_slice())
}

/// The full lower-case hex of the SHA-1 digest of `text`.
pub open spec fn sha1_hex_text(text: Seq<char>) -> Seq<char> {
    hex_text(sha1_of_text(text), 40)
}

/// The lower-case hex SHA-1 of a text (forty digits).
pub fn sha1_hex(content: &str) -> (s: String)
    ensures
        s@ == sha1_hex_text(content@),
        s@.len() == 40,
{
    let d = sha1_digest(content);
    proof {
        lemma_nibbles_len(d@);
    }
    hex_prefix(&d, 40)
}

/// The full lower-case hex of the SHA-1 digest of a byte string.
pub open spec fn sha1_hex_of_bytes(bytes: Seq<u8>) -> Seq<char> {
    hex_text(sha1_of_bytes(bytes), 40)
}

/// The lower-case hex SHA-1 of a byte string (forty digits), as a file
/// snapshot records it.
pub fn sha1_hex_bytes(bytes: &Vec<u8>) -> (s: String)
    ensures
        s@ == sha1_hex_of_bytes(bytes@),
        s@.len() == 40,
{
    let d = sha1_digest_bytes(bytes.as_slice());
    proof {
        lemma_nibbles_len(d@);
    }
    hex_prefix(&d, 40)
}

/// `prefix` followed by the first twelve hex digits of the SHA-1 of `seed`.
pub open spec fn short_id(prefix: Seq<char>, seed: Seq<char>) -> Seq<char> {
    prefix + sha1_hex_text(seed).subrange(0, 12)
}

/// Builds `prefix` + the first twelve hex digits of the SHA-1 of `seed`.
pub fn short_digest_id(prefix: &str, seed: &str) -> (s: String)
    ensures
        s@ == short_id(prefix@, seed@),
{
    let h = sha1_hex(seed);
    let hv = str_chars(h.as_str());
    let mut out: Vec<char> = Vec::new();
    push_str(&mut out, prefix);
    let mut i: usize = 0;
    while i < 12
        invariant
            i <= 12,
            hv@ == sha1_hex_text(seed@),
            hv@.len() == 40,
            out@ == prefix@ + hv@.subrange(0, i as int),
        decreases 12 - i,
    {
        out.push(hv[i]);
        proof {
            assert(hv@.subrange(0, i + 1) =~= hv@.subrange(0, i as int).push(hv@[i as int]));
        }
        i += 1;
    }
    chars_to_string(out.as_slice())
}

/// The id of the mission review of a mission candidate.
pub fn phase6f_mission_review_id(mission_candidate_id: &str) -> (s: String)
    ensures
        s@ == short_id("phase6f_review_"@, mission_candidate_id@),
{
    short_digest_id("phase6f_review_", mission_candidate_id)
}

/// Joins two parts with a newline.
pub open spec fn two_lines(a: Seq<char>, b: Seq<char>) -> Seq<char> {
    a + "\n"@ + b
}

fn join_two(a: &str, b: &str) -> (s: String)
    ensures
        s@ == two_lines(a@, b@),
{
    let mut out: Vec<char> = Vec::new();
    push_str(&mut out, a);
    push_str(&mut out, "\n");
    push_str(&mut out, b);
    chars_to_string(out.as_slice())
}

/// The id of the approval request for a reviewed mission candidate.
pub fn phase6g_mission_approval_request_id(mission_review_id: &str, mission_candidate_id: &str) -> (s: String)
    ensures
        s@ == short_id("phase6g_approval_"@, two_lines(mission_review_id@, mission_candidate_id@)),
{
    let seed = join_two(mission_review_id, mission_candidate_id);
    short_digest_id("phase6g_approval_", seed.as_str())
}

/// The id of an operator's gate decision on an objective.
pub fn gate_decision_id(decision: &str, objective_id: &str) -> (s: String)
    ensures
        s@ == "arandur_gate_"@ + decision@ + "_"@ + sha1_hex_text(objective_id@).subrange(0, 12),
{
    let mut prefix: Vec<char> = Vec::new();
    push_str(&mut prefix, "arandur_gate_");
    push_str(&mut prefix, decision);
    push_str(&mut prefix, "_");
    let p = chars_to_string(prefix.as_slice());
    short_digest_id(p.as_str(), objective_id)
}

/// The identifying text of a scout finding: mission id, scope and each
/// source URL on lines of their own, then the evidence digest if any.
pub open spec fn finding_seed(mission_id: Seq<char>, scope: Seq<char>, urls: Seq<Seq<char>>, evidence: Option<Seq<char>>) -> Seq<char> {
    mission_id + "\n"@ + scope + "\n"@ + url_lines(urls) + match evidence {
        Some(e) => e,
        None => Seq::empty(),
    }
}

/// Each URL followed by a newline.
pub open spec fn url_lines(urls: Seq<Seq<char>>) -> Seq<char>
    decreases urls.len(),
{
    if urls.len() == 0 { Seq::empty() } else { url_lines(urls.drop_last()) + urls.last() + "\n"@ }
}

/// The id of a scout finding: `phase6c_scout_` and twelve hex digits of
/// the SHA-1 of its identifying text.
pub fn phase6c_finding_id(mission_id: &str, scope: &str, source_urls: &Vec<String>, evidence_sha1: &Option<String>) -> (s: String)
    ensures
        s@ == short_id(
            "phase6c_scout_"@,
            finding_seed(mission_id@, scope@, source_urls.deep_view(), match evidence_sha1 {
                Some(e) => Some(e@),
                None => None,
            }),
        ),
{
    let mut seed: Vec<char> = Vec::new();
    push_str(&mut seed, mission_id);
    push_str(&mut seed, "\n");
    push_str(&mut seed, scope);
    push_str(&mut seed, "\n");
    let ghost head = seed@;
    let mut i: usize = 0;
    while i < source_urls.len()
        invariant
            i <= source_urls.len(),
            seed@ == head + url_lines(source_urls.deep_view().subrange(0, i as int)),
        decreases source_urls.len() - i,
    {
        push_str(&mut seed, source_urls[i].as_str());
        push_str(&mut seed, "\n");
        proof {
            let sub = source_urls.deep_view().subrange(0, i + 1);
            assert(sub.drop_last() =~= source_urls.deep_view().subrange(0, i as int));
            assert(sub.last() == source_urls@[i as int]@);
        }
        i += 1;
    }
    proof {
        assert(source_urls.deep_view().subrange(0, source_urls.deep_view().len() as int) =~= source_urls.deep_view());
    }
    match evidence_sha1 {
        Some(e) => push_str(&mut seed, e.as_str()),
        None => {},
    }
    let seed_text = chars_to_string(seed.as_slice());
    proof {
        if evidence_sha1.is_none() {
            assert(seed@ =~= seed@ + Seq::<char>::empty());
        }
    }
    short_digest_id("phase6c_scout_", seed_text.as_str())
}

/// The id of an operator's decision on a mission approval request.
pub fn phase6g_approval_decision_id(approval_request_id: &str, status: &str) -> (s: String)
    ensures
        s@ == short_id("phase6g_approval_decision_"@, two_lines(approval_request_id@, status@)),
{
    let seed = join_two(approval_request_id, status);
    short_digest_id("phase6g_approval_decision_", seed.as_str())
}

/// The id of a queue proposal for an approved mission candidate.
pub fn phase6h_mission_queue_proposal_id(approval_request_id: &str, mission_candidate_id: &str) -> (s: String)
    ensures
        s@ == short_id("phase6h_queue_proposal_"@, two_lines(approval_request_id@, mission_candidate_id@)),
{
    let seed = join_two(approval_request_id, mission_candidate_id);
    short_digest_id("phase6h_queue_proposal_", seed.as_str())
}

/// The id of a queue write request.
pub fn phase6i_mission_queue_write_request_id(
    queue_proposal_id: &str,
    mission_candidate_id: &str,
    source_approval_request_id: &str,
) -> (s: String)
    ensures
        s@ == short_id(
            "phase6i_queue_write_request_"@,
            two_lines(two_lines(queue_proposal_id@, mission_candidate_id@), source_approval_request_id@),
        ),
{
    let first = join_two(queue_proposal_id, mission_candidate_id);
    let seed = join_two(first.as_str(), source_approval_request_id);
    short_digest_id("phase6i_queue_write_request_", seed.as_str())
}

/// The id of the canonical queue entry a write request creates.
pub fn phase6j_canonical_queue_entry_id(queue_write_request_id: &str, mission_candidate_id: &str) -> (s: String)
    ensures
        s@ == short_id("task_phase6j_"@, two_lines(queue_write_request_id@, mission_candidate_id@)),
{
    let seed = join_two(queue_write_request_id, mission_candidate_id);
    short_digest_id("task_phase6j_", seed.as_str())
}

/// The identifying text of a presence event: its fields separated by NUL.
pub open spec fn presence_seed(agent: Seq<char>, mode: Seq<char>, attention: Seq<char>, timestamp: Seq<char>, correlation: Seq<char>) -> Seq<char> {
    agent + seq!['\0'] + mode + seq!['\0'] + attention + seq!['\0'] + timestamp + seq!['\0'] + correlation
}

/// The deterministic id of a presence event: `presence_` and twenty-four
/// hex digits of the SHA-1 of its identifying text.
pub fn deterministic_presence_event_id(
    agent: &str,
    mode: &str,
    attention: &str,
    timestamp: &str,
    correlation_id: &str,
) -> (s: String)
    ensures
        s@ == "presence_"@ + hex_text(sha1_of_text(presence_seed(agent@, mode@, attention@, timestamp@, correlation_id@)), 24),
{
    let mut seed: Vec<char> = Vec::new();
    push_str(&mut seed, agent);
    seed.push('\0');
    push_str(&mut seed, mode);
    seed.push('\0');
    push_str(&mut seed, attention);
    seed.push('\0');
    push_str(&mut seed, timestamp);
    seed.push('\0');
    push_str(&mut seed, correlation_id);
    proof {
        assert(seed@ =~= presence_seed(agent@, mode@, attention@, timestamp@, correlation_id@));
    }
    let text = chars_to_string(seed.as_slice());
    let d = sha1_digest(text.as_str());
    let hex = hex_prefix(&d, 24);
    let mut out: Vec<char> = Vec::new();
    push_str(&mut out, "presence_");
    push_str(&mut out, hex.as_str());
    chars_to_string(out.as_slice())
}

/// Law (hex text): hex digits are lower case, "0" to "9" for values below
/// ten and "a" to "f" above, and distinct values get distinct digits; the
/// hex text of bytes has two digits per byte, cut to the length asked for,
/// and holds hex digits only.
pub proof fn law_lower_case_hex(n: nat, m: nat, bytes: Seq<u8>, chars: nat)
    requires
        n < 16,
        m < 16,
    ensures
        n < 10 ==> '0' <= hex_digit(n) <= '9' && hex_digit(n) as int == '0' as int + n,
        n >= 10 ==> 'a' <= hex_digit(n) <= 'f' && hex_digit(n) as int == 'a' as int + (n - 10),
        n != m ==> hex_digit(n) != hex_digit(m),
        hex_text(bytes, chars).len() == if chars <= 2 * bytes.len() { chars as int } else { 2 * bytes.len() as int },
        forall|i: int| 0 <= i < hex_text(bytes, chars).len() ==> {
            let c = #[trigger] hex_text(bytes, chars)[i];
            ('0' <= c <= '9') || ('a' <= c <= 'f')
        },
{
    lemma_nibbles_len(bytes);
    assert forall|i: int| 0 <= i < hex_text(bytes, chars).len() implies {
        let c = #[trigger] hex_text(bytes, chars)[i];
        ('0' <= c <= '9') || ('a' <= c <= 'f')
    } by {
        assert(nibbles(bytes)[i] < 16);
    }
}

} // verus!
