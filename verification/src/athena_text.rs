//! ATHENA text surfaces: slugs, previews, Markdown table cells, archive
//! inventories and the packet promotion surface.

use vstd::prelude::*;
use crate::lines::{lines_of, split_lines};
use crate::text::{
    chars_to_string, decimal, is_ascii_alnum, owned, push_chars, push_decimal, push_str, str_chars,
    str_eq, take_chars, take_chars_exec, trim_chars, trim_seq, ascii_alnum,
};

verus! {

/// A Markdown table cell: `|` escaped, newlines made spaces.
pub open spec fn escape_cell(s: Seq<char>) -> Seq<char>
    decreases s.len(),
{
    if s.len() == 0 {
        Seq::empty()
    } else {
        escape_cell(s.drop_last()) + if s.last() == '|' {
            seq!['\\', '|']
        } else if s.last() == '\n' {
            seq![' ']
        } else {
            seq![s.last()]
        }
    }
}

/// Escapes text for a Markdown table cell.
pub fn markdown_escape_cell(value: &str) -> (r: String)
    ensures
        r@ == escape_cell(value@),
{
    let v = str_chars(value);
    let mut out: Vec<char> = Vec::new();
    let mut i: usize = 0;
    while i < v.len()
        invariant
            i <= v.len(),
            v@ == value@,
            out@ == escape_cell(v@.subrange(0, i as int)),
        decreases v.len() - i,
    {
        let c = v[i];
        if c == '|' {
            out.push('\\');
            out.push('|');
        } else if c == '\n' {
            out.push(' ');
        } else {
            out.push(c);
        }
        proof {
            let sub = v@.subrange(0, i + 1);
            assert(sub.drop_last() =~= v@.subrange(0, i as int));
            assert(sub.last() == c);
            assert(out@ =~= escape_cell(sub));
        }
        i += 1;
    }
    proof {
        assert(v@.subrange(0, v@.len() as int) =~= v@);
    }
    chars_to_string(out.as_slice())
}

/// The first `limit` characters.
pub fn truncate_chars(input: &str, limit: usize) -> (r: String)
    ensures
        r@ == take_chars(input@, limit as nat),
{
    chars_to_string(take_chars_exec(&str_chars(input), limit).as_slice())
}

/// The first `limit` characters of the trimmed text.
pub fn preview_text(input: &str, limit: usize) -> (r: String)
    ensures
        r@ == take_chars(trim_seq(input@), limit as nat),
{
    chars_to_string(take_chars_exec(&trim_chars(&str_chars(input)), limit).as_slice())
}

/// The Unicode lower-casing of a text, as std computes it.
pub uninterp spec fn unicode_lowercase(s: Seq<char>) -> Seq<char>;

/// `str::to_lowercase`: full Unicode lower-casing. The mapping is named,
/// not stated.
#[verifier::external_body]
fn to_lowercase(s: &str) -> (r: String)
    ensures
        r@ == unicode_lowercase(s@),
{
    s.to_lowercase()
}

/// ASCII letters and digits kept, every other run made one `_`.
pub open spec fn collapse(s: Seq<char>) -> Seq<char>
    decreases s.len(),
{
    if s.len() == 0 {
        Seq::empty()
    } else {
        let prev = collapse(s.drop_last());
        let c = s.last();
        if is_ascii_alnum(c) {
            prev.push(c)
        } else if prev.len() > 0 && prev.last() == '_' {
            prev
        } else {
            prev.push('_')
        }
    }
}

/// The number of leading `_`.
pub open spec fn lead_us(s: Seq<char>) -> nat
    decreases s.len(),
{
    if s.len() > 0 && s[0] == '_' { 1 + lead_us(s.drop_first()) } else { 0 }
}

/// The number of trailing `_`.
pub open spec fn trail_us(s: Seq<char>) -> nat
    decreases s.len(),
{
    if s.len() > 0 && s.last() == '_' { 1 + trail_us(s.drop_last()) } else { 0 }
}

/// The text without leading and trailing `_`.
pub open spec fn strip_us(s: Seq<char>) -> Seq<char> {
    let a = lead_us(s) as int;
    if a >= s.len() { Seq::empty() } else { s.subrange(a, s.len() - trail_us(s) as int) }
}

/// The slug of a text: lower-cased, non-alphanumeric runs collapsed to
/// `_`, outer `_` removed, at most eighty characters.
pub open spec fn slug_of(s: Seq<char>) -> Seq<char> {
    take_chars(strip_us(collapse(unicode_lowercase(s))), 80)
}

proof fn lemma_lead(s: Seq<char>, i: int)
    requires
        0 <= i <= s.len(),
        forall|j: int| 0 <= j < i ==> s[j] == '_',
        i == s.len() || s[i] != '_',
    ensures
        lead_us(s) == i,
    decreases i,
{
    if i > 0 {
        lemma_lead(s.drop_first(), i - 1);
    }
}

proof fn lemma_trail(s: Seq<char>, k: int)
    requires
        0 <= k <= s.len(),
        forall|j: int| s.len() - k <= j < s.len() ==> s[j] == '_',
        k == s.len() || s[s.len() - k - 1] != '_',
    ensures
        trail_us(s) == k,
    decreases k,
{
    if k > 0 {
        lemma_trail(s.drop_last(), k - 1);
    }
}

fn strip_underscores(v: &Vec<char>) -> (r: Vec<char>)
    ensures
        r@ == strip_us(v@),
{
    let mut a: usize = 0;
    while a < v.len() && v[a] == '_'
        invariant
            a <= v.len(),
            forall|j: int| 0 <= j < a ==> v@[j] == '_',
        decreases v.len() - a,
    {
        a += 1;
    }
    proof {
        lemma_lead(v@, a as int);
    }
    if a == v.len() {
        return Vec::new();
    }
    let mut k: usize = 0;
    while k < v.len() - a && v[v.len() - 1 - k] == '_'
        invariant
            a < v.len(),
            k <= v.len() - a,
            forall|j: int| v.len() - k <= j < v.len() ==> v@[j] == '_',
        decreases v.len() - a - k,
    {
        k += 1;
    }
    proof {
        if k == v.len() - a {
            assert(v@[a as int] == '_');
        }
        lemma_trail(v@, k as int);
    }
    let end = v.len() - k;
    let mut out: Vec<char> = Vec::new();
    let mut p: usize = a;
    while p < end
        invariant
            a <= p <= end,
            end <= v.len(),
            out@ == v@.subrange(a as int, p as int),
        decreases end - p,
    {
        out.push(v[p]);
        proof {
            assert(v@.subrange(a as int, p + 1) =~= v@.subrange(a as int, p as int).push(v@[p as int]));
        }
        p += 1;
    }
    out
}

/// Makes a file-name slug of a title.
pub fn slugify(input: &str) -> (r: String)
    ensures
        r@ == slug_of(input@),
{
    let lowered = str_chars(to_lowercase(input).as_str());
    let mut out: Vec<char> = Vec::new();
    let mut i: usize = 0;
    while i < lowered.len()
        invariant
            i <= lowered.len(),
            out@ == collapse(lowered@.subrange(0, i as int)),
        decreases lowered.len() - i,
    {
        let c = lowered[i];
        let ghost before = out@;
        if ascii_alnum(c) {
            out.push(c);
        } else if !(out.len() > 0 && out[out.len() - 1] == '_') {
            out.push('_');
        }
        proof {
            let sub = lowered@.subrange(0, i + 1);
            assert(sub.drop_last() =~= lowered@.subrange(0, i as int));
            assert(sub.last() == c);
        }
        i += 1;
    }
    proof {
        assert(lowered@.subrange(0, lowered@.len() as int) =~= lowered@);
    }
    let stripped = strip_underscores(&out);
    chars_to_string(take_chars_exec(&stripped, 80).as_slice())
}

/// The Unicode upper-casing of one character, as std computes it.
pub uninterp spec fn unicode_uppercase_char(c: char) -> Seq<char>;

/// `char::to_uppercase` collected into text. The mapping is named, not
/// stated.
#[verifier::external_body]
fn char_to_uppercase(c: char) -> (r: String)
    ensures
        r@ == unicode_uppercase_char(c),
{
    c.to_uppercase().collect()
}

/// The text with its first character upper-cased.
pub open spec fn title_case_of(s: Seq<char>) -> Seq<char> {
    if s.len() == 0 { Seq::empty() } else { unicode_uppercase_char(s[0]) + s.drop_first() }
}

/// Upper-cases the first character of a text.
pub fn title_case(value: &str) -> (r: String)
    ensures
        r@ == title_case_of(value@),
{
    let v = str_chars(value);
    if v.len() == 0 {
        return chars_to_string(v.as_slice());
    }
    let mut out = str_chars(char_to_uppercase(v[0]).as_str());
    let mut i: usize = 1;
    let ghost head = out@;
    while i < v.len()
        invariant
            1 <= i <= v.len(),
            out@ == head + v@.subrange(1, i as int),
        decreases v.len() - i,
    {
        out.push(v[i]);
        proof {
            assert(v@.subrange(1, i + 1) =~= v@.subrange(1, i as int).push(v@[i as int]));
        }
        i += 1;
    }
    proof {
        assert(v@.subrange(1, v@.len() as int) =~= v@.drop_first());
    }
    chars_to_string(out.as_slice())
}

/// `- <line trimmed>` for each listed entry, joined by newlines.
pub open spec fn inventory_lines(ls: Seq<Seq<char>>) -> Seq<char>
    decreases ls.len(),
{
    if ls.len() == 0 {
        Seq::empty()
    } else if ls.len() == 1 {
        "- "@ + trim_seq(ls[0])
    } else {
        inventory_lines(ls.drop_last()) + "\n- "@ + trim_seq(ls.last())
    }
}

/// The archive inventory text of a `zipinfo -1` listing: at most the first
/// two hundred entries, one bullet each.
pub open spec fn inventory_text(listing: Seq<char>) -> Seq<char> {
    let ls = lines_of(listing);
    let shown = if ls.len() <= 200 { ls } else { ls.subrange(0, 200) };
    if shown.len() == 0 { "Archive inventory:\n"@ } else { "Archive inventory:\n\n"@ + inventory_lines(shown) }
}

/// Renders an archive listing as an inventory.
pub fn zip_inventory_text(listing: &str) -> (r: String)
    ensures
        r@ == inventory_text(listing@),
{
    let ls = split_lines(&str_chars(listing));
    let ghost lv = ls@.map_values(|l: Vec<char>| l@);
    let n = if ls.len() <= 200 { ls.len() } else { 200 };
    let ghost shown = if lv.len() <= 200 { lv } else { lv.subrange(0, 200) };
    if n == 0 {
        return owned("Archive inventory:\n");
    }
    let mut out: Vec<char> = Vec::new();
    push_str(&mut out, "Archive inventory:\n\n");
    let ghost head = out@;
    let mut i: usize = 0;
    while i < n
        invariant
            i <= n,
            n <= ls@.len(),
            n == shown.len(),
            lv == ls@.map_values(|l: Vec<char>| l@),
            shown == if lv.len() <= 200 { lv } else { lv.subrange(0, 200) },
            out@ == head + inventory_lines(shown.subrange(0, i as int)),
        decreases n - i,
    {
        if i > 0 {
            push_str(&mut out, "\n- ");
        } else {
            push_str(&mut out, "- ");
        }
        let t = trim_chars(&ls[i]);
        push_chars(&mut out, &t);
        proof {
            let sub = shown.subrange(0, i + 1);
            assert(sub.drop_last() =~= shown.subrange(0, i as int));
            assert(sub.last() == ls@[i as int]@);
            if i == 0 {
                assert(shown.subrange(0, i as int) =~= Seq::<Seq<char>>::empty());
            }
        }
        i += 1;
    }
    proof {
        assert(shown.subrange(0, n as int) =~= shown);
    }
    chars_to_string(out.as_slice())
}

/// The path components with `human/Notes` spelled `human/notes`.
pub open spec fn human_components(parts: Seq<Seq<char>>) -> Seq<Seq<char>> {
    if parts.len() >= 2 && parts[0] == "human"@ && parts[1] == "Notes"@ { parts.update(1, "notes"@) } else { parts }
}

/// Normalizes the components of a path under the workspace: the human
/// notes directory is always spelled in lower case.
pub fn normalize_human_components(parts: Vec<String>) -> (r: Vec<String>)
    ensures
        r.deep_view() == human_components(parts.deep_view()),
{
    let mut parts = parts;
    if parts.len() >= 2 && str_eq(parts[0].as_str(), "human") && str_eq(parts[1].as_str(), "Notes") {
        let ghost before = parts.deep_view();
        parts.set(1, owned("notes"));
        proof {
            assert(parts.deep_view() =~= before.update(1, "notes"@));
        }
    }
    parts
}

/// The candidates a wave takes: the first `max(limit, 1)` rows whose class
/// is accepted, by position.
pub open spec fn wave_picks(classes: Seq<Option<String>>, accepted: spec_fn(Seq<char>) -> bool, limit: nat, n: int) -> Seq<usize>
    decreases n,
{
    if n <= 0 {
        Seq::empty()
    } else {
        let prev = wave_picks(classes, accepted, limit, n - 1);
        let want = if limit < 1 { 1 } else { limit };
        let hit = match classes[n - 1] {
            Some(c) => accepted(c@),
            None => false,
        };
        if hit && prev.len() < want { prev.push((n - 1) as usize) } else { prev }
    }
}

/// A text note of the human corpus.
pub open spec fn is_text_class(c: Seq<char>) -> bool {
    c == "text"@
}

/// A document or archive of the human corpus.
pub open spec fn is_document_class(c: Seq<char>) -> bool {
    c == "document"@ || c == "archive"@
}

/// Picks the candidates of an ingest wave: with `documents` the document
/// and archive rows, otherwise the text rows; at most `max(limit, 1)`.
pub fn pick_wave_candidates(classes: &Vec<Option<String>>, documents: bool, limit: usize) -> (out: Vec<usize>)
    ensures
        out@ == if documents {
            wave_picks(classes@, |c: Seq<char>| is_document_class(c), limit as nat, classes@.len() as int)
        } else {
            wave_picks(classes@, |c: Seq<char>| is_text_class(c), limit as nat, classes@.len() as int)
        },
{
    let want: usize = if limit < 1 { 1 } else { limit };
    let ghost acc: spec_fn(Seq<char>) -> bool = if documents {
        |c: Seq<char>| is_document_class(c)
    } else {
        |c: Seq<char>| is_text_class(c)
    };
    let mut out: Vec<usize> = Vec::new();
    let mut i: usize = 0;
    while i < classes.len()
        invariant
            i <= classes.len(),
            want == (if limit < 1 { 1usize } else { limit }),
            acc == (if documents { |c: Seq<char>| is_document_class(c) } else { |c: Seq<char>| is_text_class(c) }),
            out@ == wave_picks(classes@, acc, limit as nat, i as int),
            out@.len() <= want,
        decreases classes.len() - i,
    {
        let hit = match &classes[i] {
            Some(c) => if documents {
                str_eq(c.as_str(), "document") || str_eq(c.as_str(), "archive")
            } else {
                str_eq(c.as_str(), "text")
            },
            None => false,
        };
        if hit && out.len() < want {
            out.push(i);
        }
        i += 1;
    }
    out
}

/// What a document is taken as, by its file extension.
#[derive(Debug, Clone, Copy, PartialEq, Eq, Structural)]
pub enum DocumentClass {
    Document,
    Archive,
    Unknown,
}

impl DocumentClass {
    /// The class name.
    pub fn name(&self) -> (s: &'static str)
        ensures
            s@ == match *self {
                DocumentClass::Document => "document"@,
                DocumentClass::Archive => "archive"@,
                DocumentClass::Unknown => "unknown"@,
            },
    {
        match self {
            DocumentClass::Document => "document",
            DocumentClass::Archive => "archive",
            DocumentClass::Unknown => "unknown",
        }
    }
}

/// Classes a document by its extension: `.docx` documents and `.zip`
/// archives, in any ASCII case.
pub fn document_class(extension: Option<&str>) -> (c: DocumentClass)
    ensures
        c == match extension {
            Some(e) => if crate::text::lower_seq(e@) == "docx"@ {
                DocumentClass::Document
            } else if crate::text::lower_seq(e@) == "zip"@ {
                DocumentClass::Archive
            } else {
                DocumentClass::Unknown
            },
            None => DocumentClass::Unknown,
        },
{
    match extension {
        Some(e) => {
            let l = crate::text::str_to_ascii_lowercase(e);
            if crate::text::chars_eq(&l, &str_chars("docx")) {
                DocumentClass::Document
            } else if crate::text::chars_eq(&l, &str_chars("zip")) {
                DocumentClass::Archive
            } else {
                DocumentClass::Unknown
            }
        },
        None => DocumentClass::Unknown,
    }
}

/// What a corpus note is ingested as: its origin, a blank line and at
/// most 24000 characters of it.
pub fn corpus_note_payload(canonical: &str, content: &str) -> (s: String)
    ensures
        s@ == "Local corpus note from "@ + canonical@ + ".\n\n"@ + take_chars(content@, 24000),
{
    let mut out: Vec<char> = Vec::new();
    push_str(&mut out, "Local corpus note from ");
    push_str(&mut out, canonical);
    push_str(&mut out, ".\n\n");
    push_chars(&mut out, &take_chars_exec(&str_chars(content), 24000));
    chars_to_string(out.as_slice())
}

/// What an extracted document is ingested as.
pub fn extracted_document_payload(class_name: &str, canonical: &str, content: &str) -> (s: String)
    ensures
        s@ == "Extracted local "@ + class_name@ + " from "@ + canonical@ + ".\n\n"@ + take_chars(content@, 24000),
{
    let mut out: Vec<char> = Vec::new();
    push_str(&mut out, "Extracted local ");
    push_str(&mut out, class_name);
    push_str(&mut out, " from ");
    push_str(&mut out, canonical);
    push_str(&mut out, ".\n\n");
    push_chars(&mut out, &take_chars_exec(&str_chars(content), 24000));
    chars_to_string(out.as_slice())
}

/// The Markdown header of an extracted document.
pub fn extracted_header(title: &str, source_path: &str, canonical: &str, extracted_at: &str) -> (s: String)
    ensures
        s@ == "# Extracted "@ + title@ + "\n\n- source_path: `"@ + source_path@ + "`\n- canonical_source_path: `"@
            + canonical@ + "`\n- extracted_at_utc: `"@ + extracted_at@ + "`\n\n"@,
{
    let mut out: Vec<char> = Vec::new();
    push_str(&mut out, "# Extracted ");
    push_str(&mut out, title);
    push_str(&mut out, "\n\n- source_path: `");
    push_str(&mut out, source_path);
    push_str(&mut out, "`\n- canonical_source_path: `");
    push_str(&mut out, canonical);
    push_str(&mut out, "`\n- extracted_at_utc: `");
    push_str(&mut out, extracted_at);
    push_str(&mut out, "`\n\n");
    chars_to_string(out.as_slice())
}

/// How many results are flagged ok.
pub open spec fn count_ok(r: Seq<bool>) -> nat
    decreases r.len(),
{
    if r.len() == 0 { 0 } else { count_ok(r.drop_last()) + if r.last() { 1nat } else { 0nat } }
}

/// The wave summary: attempted, ok and failed totals.
pub fn wave_totals(ok: &Vec<bool>) -> (t: (usize, usize, usize))
    ensures
        t.0 == ok@.len(),
        t.1 == count_ok(ok@),
        t.2 == ok@.len() - count_ok(ok@),
{
    let mut n: usize = 0;
    let mut i: usize = 0;
    while i < ok.len()
        invariant
            i <= ok.len(),
            n == count_ok(ok@.subrange(0, i as int)),
            n <= i,
        decreases ok.len() - i,
    {
        if ok[i] {
            n += 1;
        }
        proof {
            assert(ok@.subrange(0, i + 1).drop_last() =~= ok@.subrange(0, i as int));
        }
        i += 1;
    }
    proof {
        assert(ok@.subrange(0, ok@.len() as int) =~= ok@);
    }
    (ok.len(), n, ok.len() - n)
}


/// One promotion-matrix row as the surface prints it: each field is the
/// row's value (text as is, other values as JSON, absent as empty).
pub struct PromotionRow {
    pub status: String,
    pub source: String,
    pub target: String,
    pub gate: String,
    pub rationale: String,
}

/// One recommended queue entry as the surface prints it.
pub struct QueueEntrySummary {
    pub id: String,
    pub title: String,
    pub owner: String,
}

/// The table line of the row numbered `n` (from 1).
pub open spec fn promotion_row_line(n: nat, r: PromotionRow) -> Seq<char> {
    "| "@ + decimal(n) + " | "@ + escape_cell(r.status@) + " | "@ + escape_cell(r.source@) + " | "@
        + escape_cell(r.target@) + " | "@ + escape_cell(r.gate@) + " | "@ + escape_cell(r.rationale@)
        + " |\n"@
}

/// The table lines of the first `n` rows.
pub open spec fn promotion_rows_md(rows: Seq<PromotionRow>, n: nat) -> Seq<char>
    decreases n,
{
    if n == 0 {
        Seq::empty()
    } else {
        promotion_rows_md(rows, (n - 1) as nat) + promotion_row_line(n, rows[n - 1])
    }
}

/// The list line of a queue entry.
pub open spec fn queue_entry_line(q: QueueEntrySummary) -> Seq<char> {
    "- `"@ + escape_cell(q.id@) + "` — "@ + escape_cell(q.title@) + " (owner: "@ + escape_cell(q.owner@)
        + ")\n"@
}

/// The list lines of the first `n` queue entries.
pub open spec fn queue_entries_md(qs: Seq<QueueEntrySummary>, n: nat) -> Seq<char>
    decreases n,
{
    if n == 0 {
        Seq::empty()
    } else {
        queue_entries_md(qs, (n - 1) as nat) + queue_entry_line(qs[n - 1])
    }
}

/// The head of the surface, up to the packet directory.
pub open spec fn surface_head() -> Seq<char> {
    "---\nauthority: agent_generated\nreview_required: true\nstatus: candidate\ncontract: arda.athena.packet_promotion_surface.v1\n---\n\n# ATHENA Packet Promotion Surface\n\n- generated_at_utc: `"@
}

/// The policy lines and table header, after the packet directory.
pub open spec fn surface_table_head() -> Seq<char> {
    "`\n- raw_human_inbox_policy: read_only\n- canonical_queue_policy: recommendation_only_until_review\n- research_claim_policy: review_gated\n\n## Promotion Candidates\n\n| Row | Matrix status | Source | Suggested target | Gate | Rationale |\n|---:|---|---|---|---|---|\n"@
}

/// The heading of the queue-entry list.
pub open spec fn surface_queue_head() -> Seq<char> {
    "\n## Recommended Queue Entries\n\nThese remain review-gated; this surface does not append to `core/projects/tasks/queue.jsonl`.\n\n"@
}

/// The closing review-gate checklist.
pub open spec fn surface_review_gates() -> Seq<char> {
    "\n## Review Gates\n\n- [ ] Verify source provenance and raw inbox preservation.\n- [ ] Decide whether each candidate belongs in project plans, knowledge notes, or queue recommendations.\n- [ ] Keep all research claims review-gated until independently verified.\n- [ ] Validate JSON/JSONL and run `git diff --check` before commit.\n"@
}

/// The whole promotion surface.
pub open spec fn promotion_surface_md(
    generated_at: Seq<char>,
    packet: Seq<char>,
    rows: Seq<PromotionRow>,
    queue: Seq<QueueEntrySummary>,
) -> Seq<char> {
    surface_head() + generated_at + "`\n- packet_dir: `"@ + packet + surface_table_head()
        + promotion_rows_md(rows, rows.len()) + surface_queue_head() + queue_entries_md(queue, queue.len())
        + surface_review_gates()
}

fn push_escaped(out: &mut Vec<char>, s: &String)
    ensures
        final(out)@ == old(out)@ + escape_cell(s@),
{
    let e = markdown_escape_cell(s.as_str());
    push_str(out, e.as_str());
}

/// Renders the packet promotion surface: a front-matter marked
/// agent-generated and review-required, a table of the promotion
/// candidates numbered from 1, the recommended queue entries, and the
/// review-gate checklist. Table cells are escaped.
#[verifier::rlimit(40)]
pub fn render_promotion_surface(
    generated_at: &str,
    packet: &str,
    rows: &Vec<PromotionRow>,
    queue: &Vec<QueueEntrySummary>,
) -> (md: String)
    ensures
        md@ == promotion_surface_md(generated_at@, packet@, rows@, queue@),
{
    let mut out: Vec<char> = Vec::new();
    push_str(&mut out, "---\nauthority: agent_generated\nreview_required: true\nstatus: candidate\ncontract: arda.athena.packet_promotion_surface.v1\n---\n\n# ATHENA Packet Promotion Surface\n\n- generated_at_utc: `");
    push_str(&mut out, generated_at);
    push_str(&mut out, "`\n- packet_dir: `");
    push_str(&mut out, packet);
    push_str(&mut out, "`\n- raw_human_inbox_policy: read_only\n- canonical_queue_policy: recommendation_only_until_review\n- research_claim_policy: review_gated\n\n## Promotion Candidates\n\n| Row | Matrix status | Source | Suggested target | Gate | Rationale |\n|---:|---|---|---|---|---|\n");
    let ghost head = out@;
    let mut i: usize = 0;
    while i < rows.len()
        invariant
            i <= rows.len(),
            out@ == head + promotion_rows_md(rows@, i as nat),
        decreases rows.len() - i,
    {
        let ghost before_row = out@;
        let r = &rows[i];
        push_str(&mut out, "| ");
        push_decimal(&mut out, (i + 1) as u64);
        push_str(&mut out, " | ");
        push_escaped(&mut out, &r.status);
        push_str(&mut out, " | ");
        push_escaped(&mut out, &r.source);
        push_str(&mut out, " | ");
        push_escaped(&mut out, &r.target);
        push_str(&mut out, " | ");
        push_escaped(&mut out, &r.gate);
        push_str(&mut out, " | ");
        push_escaped(&mut out, &r.rationale);
        push_str(&mut out, " |\n");
        proof {
            assert(out@ =~= before_row + promotion_row_line((i + 1) as nat, rows@[i as int]));
            assert(promotion_rows_md(rows@, (i + 1) as nat)
                == promotion_rows_md(rows@, i as nat) + promotion_row_line((i + 1) as nat, rows@[i as int]));
        }
        i += 1;
    }
    push_str(&mut out, "\n## Recommended Queue Entries\n\nThese remain review-gated; this surface does not append to `core/projects/tasks/queue.jsonl`.\n\n");
    let ghost mid = out@;
    let mut j: usize = 0;
    while j < queue.len()
        invariant
            j <= queue.len(),
            out@ == mid + queue_entries_md(queue@, j as nat),
        decreases queue.len() - j,
    {
        let ghost before_entry = out@;
        let q = &queue[j];
        push_str(&mut out, "- `");
        push_escaped(&mut out, &q.id);
        push_str(&mut out, "` — ");
        push_escaped(&mut out, &q.title);
        push_str(&mut out, " (owner: ");
        push_escaped(&mut out, &q.owner);
        push_str(&mut out, ")\n");
        proof {
            assert(out@ =~= before_entry + queue_entry_line(queue@[j as int]));
            assert(queue_entries_md(queue@, (j + 1) as nat)
                == queue_entries_md(queue@, j as nat) + queue_entry_line(queue@[j as int]));
        }
        j += 1;
    }
    push_str(&mut out, "\n## Review Gates\n\n- [ ] Verify source provenance and raw inbox preservation.\n- [ ] Decide whether each candidate belongs in project plans, knowledge notes, or queue recommendations.\n- [ ] Keep all research claims review-gated until independently verified.\n- [ ] Validate JSON/JSONL and run `git diff --check` before commit.\n");
    proof {
        assert(out@ =~= promotion_surface_md(generated_at@, packet@, rows@, queue@));
    }
    chars_to_string(out.as_slice())
}

/// The text with every match of the regular expression `pattern` replaced
/// by `rep` (`$` references in `rep` expanded), as the `regex` crate's
/// `Regex::replace_all` makes it; `None` when the pattern does not compile.
pub uninterp spec fn regex_replace_all_result(pattern: Seq<char>, text: Seq<char>, rep: Seq<char>) -> Option<Seq<char>>;

/// The optional text as a view.
pub open spec fn text_view(v: Option<String>) -> Option<Seq<char>> {
    match v {
        Some(s) => Some(s@),
        None => None,
    }
}

/// Compiles `pattern` with `regex::Regex::new` and applies
/// `Regex::replace_all` to `text` with `rep`; a pattern that does not
/// compile gives `None`. What the crate computes is named, not stated: it
/// depends on the pattern, the text and the replacement alone.
#[verifier::external_body]
fn regex_replace_all(pattern: &str, text: &str, rep: &str) -> (r: Option<String>)
    ensures
        text_view(r) == regex_replace_all_result(pattern@, text@, rep@),
{
    match regex::Regex::new(pattern) {
        Ok(re) => Some(re.replace_all(text, rep).into_owned()),
        Err(_) => None,
    }
}

/// The five XML entities a Word document's text is unescaped of, in turn.
pub open spec fn unescape_xml(t: Seq<char>) -> Seq<char> {
    crate::text::replace_all(
        crate::text::replace_all(
            crate::text::replace_all(
                crate::text::replace_all(crate::text::replace_all(t, "&amp;"@, "&"@), "&lt;"@, "<"@),
                "&gt;"@,
                ">"@,
            ),
            "&quot;"@,
            "\""@,
        ),
        "&apos;"@,
        "'"@,
    )
}

/// The body text of a Word document's `word/document.xml`: each paragraph
/// end becomes a blank line, the remaining tags are dropped, the XML
/// entities are unescaped, the text is trimmed, and runs of three or more
/// newlines become one blank line. `None` when a pattern does not compile.
pub open spec fn docx_text_of(xml: Seq<char>) -> Option<Seq<char>> {
    match regex_replace_all_result("</w:p>"@, xml, "\n\n"@) {
        Some(t1) => match regex_replace_all_result("<[^>]+>"@, t1, ""@) {
            Some(t2) => regex_replace_all_result("\\n{3,}"@, trim_seq(unescape_xml(t2)), "\n\n"@),
            None => None,
        },
        None => None,
    }
}

fn replace_text(t: &Vec<char>, pat: &str, rep: &str) -> (r: Vec<char>)
    requires
        pat@.len() > 0,
    ensures
        r@ == crate::text::replace_all(t@, pat@, rep@),
{
    crate::text::replace_chars(t, &str_chars(pat), &str_chars(rep))
}

/// Extracts the body text of a Word document from its
/// `word/document.xml`.
pub fn docx_body_text(xml: &str) -> (r: Option<String>)
    ensures
        text_view(r) == docx_text_of(xml@),
{
    proof {
        reveal_strlit("&amp;");
        reveal_strlit("&lt;");
        reveal_strlit("&gt;");
        reveal_strlit("&quot;");
        reveal_strlit("&apos;");
    }
    let t1 = match regex_replace_all("</w:p>", xml, "\n\n") {
        Some(t) => t,
        None => return None,
    };
    let t2 = match regex_replace_all("<[^>]+>", t1.as_str(), "") {
        Some(t) => t,
        None => return None,
    };
    let v = str_chars(t2.as_str());
    let v = replace_text(&v, "&amp;", "&");
    let v = replace_text(&v, "&lt;", "<");
    let v = replace_text(&v, "&gt;", ">");
    let v = replace_text(&v, "&quot;", "\"");
    let v = replace_text(&v, "&apos;", "'");
    let trimmed = trim_chars(&v);
    let t4 = chars_to_string(trimmed.as_slice());
    regex_replace_all("\\n{3,}", t4.as_str(), "\n\n")
}

/// Extracted content is kept only when it is not blank; blank content is
/// refused as empty.
pub fn extracted_content_usable(content: &str) -> (ok: bool)
    ensures
        ok == (trim_seq(content@).len() > 0),
{
    crate::text::str_trim(content).len() > 0
}

/// Law (inventory cap): an archive inventory lists every entry of a
/// listing of at most two hundred entries, and of a longer listing only
/// the first two hundred, so listings that agree on those agree.
pub proof fn law_inventory_lists_first_two_hundred(listing: Seq<char>, other: Seq<char>)
    ensures
        0 < lines_of(listing).len() <= 200
            ==> inventory_text(listing) == "Archive inventory:\n\n"@ + inventory_lines(lines_of(listing)),
        lines_of(listing).len() >= 200 && lines_of(other).len() >= 200
            && lines_of(listing).subrange(0, 200) == lines_of(other).subrange(0, 200)
            ==> inventory_text(listing) == inventory_text(other),
{
    let a = lines_of(listing);
    let b = lines_of(other);
    if a.len() == 200 {
        assert(a.subrange(0, 200) =~= a);
    }
    if b.len() == 200 {
        assert(b.subrange(0, 200) =~= b);
    }
}

/// Law (ingest waves): a wave takes at most `max(limit, 1)` rows, each of
/// an accepted class, in increasing position; while it has room it takes
/// every accepted row. Text waves accept "text", document waves
/// "document" and "archive".
pub proof fn law_wave_picks(classes: Seq<Option<String>>, accepted: spec_fn(Seq<char>) -> bool, limit: nat, n: int, c: Seq<char>)
    requires
        0 <= n <= classes.len(),
        classes.len() <= usize::MAX,
    ensures
        wave_picks(classes, accepted, limit, n).len() <= (if limit < 1 { 1 } else { limit }),
        forall|k: int| 0 <= k < wave_picks(classes, accepted, limit, n).len() ==> {
            let i = #[trigger] wave_picks(classes, accepted, limit, n)[k];
            &&& i < n
            &&& classes[i as int] matches Some(x) && accepted(x@)
        },
        forall|a: int, b: int| 0 <= a < b < wave_picks(classes, accepted, limit, n).len()
            ==> wave_picks(classes, accepted, limit, n)[a] < wave_picks(classes, accepted, limit, n)[b],
        wave_picks(classes, accepted, limit, n).len() < (if limit < 1 { 1 } else { limit }) ==>
            forall|i: int| 0 <= i < n && (#[trigger] classes[i] matches Some(x) && accepted(x@))
                ==> wave_picks(classes, accepted, limit, n).contains(i as usize),
        is_text_class(c) <==> c == "text"@,
        is_document_class(c) <==> (c == "document"@ || c == "archive"@),
    decreases n,
{
    if n > 0 {
        law_wave_picks(classes, accepted, limit, n - 1, c);
        let prev = wave_picks(classes, accepted, limit, n - 1);
        let cur = wave_picks(classes, accepted, limit, n);
        let want: nat = if limit < 1 { 1 } else { limit };
        let hit = match classes[n - 1] {
            Some(x) => accepted(x@),
            None => false,
        };
        assert(((n - 1) as usize) as int == n - 1);
        if hit && prev.len() < want {
            assert(cur == prev.push((n - 1) as usize));
            assert forall|k: int| 0 <= k < cur.len() implies {
                let i = #[trigger] cur[k];
                &&& i < n
                &&& classes[i as int] matches Some(x) && accepted(x@)
            } by {
                if k < prev.len() {
                    assert(cur[k] == prev[k]);
                }
            }
            assert forall|a: int, b: int| 0 <= a < b < cur.len() implies cur[a] < cur[b] by {
                if b < prev.len() {
                    assert(cur[a] == prev[a] && cur[b] == prev[b]);
                } else {
                    assert(cur[a] == prev[a]);
                }
            }
            if cur.len() < want {
                assert forall|i: int| 0 <= i < n && (#[trigger] classes[i] matches Some(x) && accepted(x@))
                    implies cur.contains(i as usize) by {
                    if i < n - 1 {
                        let k = choose|k: int| 0 <= k < prev.len() && prev[k] == i as usize;
                        assert(cur[k] == prev[k]);
                    } else {
                        assert(cur[prev.len() as int] == (n - 1) as usize);
                    }
                }
            }
        } else {
            assert(cur == prev);
            if cur.len() < want {
                assert forall|i: int| 0 <= i < n && (#[trigger] classes[i] matches Some(x) && accepted(x@))
                    implies cur.contains(i as usize) by {
                    if i == n - 1 {
                        assert(hit);
                    }
                }
            }
        }
    }
}

/// Law (table cells): an escaped cell holds no newline, every "|" in it is
/// escaped by a backslash, and it is never shorter than the text.
pub proof fn law_escaped_cells(s: Seq<char>)
    ensures
        forall|i: int| 0 <= i < escape_cell(s).len() ==> #[trigger] escape_cell(s)[i] != '\n',
        forall|i: int| 0 <= i < escape_cell(s).len() && #[trigger] escape_cell(s)[i] == '|'
            ==> i > 0 && escape_cell(s)[i - 1] == '\\',
        escape_cell(s).len() >= s.len(),
    decreases s.len(),
{
    if s.len() > 0 {
        let p = s.drop_last();
        law_escaped_cells(p);
        let c = s.last();
        let tail: Seq<char> = if c == '|' { seq!['\\', '|'] } else if c == '\n' { seq![' '] } else { seq![c] };
        let e = escape_cell(s);
        let ep = escape_cell(p);
        assert(e == ep + tail);
        assert forall|i: int| 0 <= i < e.len() implies #[trigger] e[i] != '\n' by {
            if i < ep.len() {
                assert(e[i] == ep[i]);
            } else {
                assert(e[i] == tail[i - ep.len()]);
            }
        }
        assert forall|i: int| 0 <= i < e.len() && #[trigger] e[i] == '|' implies i > 0 && e[i - 1] == '\\' by {
            if i < ep.len() {
                assert(e[i] == ep[i]);
                assert(e[i - 1] == ep[i - 1]);
            } else {
                assert(e[i] == tail[i - ep.len()]);
                if c == '|' {
                    assert(i == ep.len() + 1);
                    assert(e[i - 1] == tail[0]);
                }
            }
        }
    }
}

proof fn lemma_lead_stops(s: Seq<char>)
    ensures
        lead_us(s) <= s.len(),
        lead_us(s) < s.len() ==> s[lead_us(s) as int] != '_',
    decreases s.len(),
{
    if s.len() > 0 && s[0] == '_' {
        lemma_lead_stops(s.drop_first());
    }
}

proof fn lemma_trail_run(s: Seq<char>)
    ensures
        trail_us(s) <= s.len(),
        forall|j: int| s.len() - trail_us(s) <= j < s.len() ==> #[trigger] s[j] == '_',
    decreases s.len(),
{
    if s.len() > 0 && s.last() == '_' {
        lemma_trail_run(s.drop_last());
        assert forall|j: int| s.len() - trail_us(s) <= j < s.len() implies #[trigger] s[j] == '_' by {
            if j < s.len() - 1 {
                assert(s[j] == s.drop_last()[j]);
            }
        }
    }
}

/// Law (slugs): a slug is at most eighty characters long and does not
/// start with "_".
pub proof fn law_slug_shape(s: Seq<char>)
    ensures
        slug_of(s).len() <= 80,
        slug_of(s).len() > 0 ==> slug_of(s)[0] != '_',
{
    let x = collapse(unicode_lowercase(s));
    lemma_lead_stops(x);
    lemma_trail_run(x);
    let a = lead_us(x) as int;
    if a < x.len() {
        let t = trail_us(x) as int;
        if a >= x.len() - t {
            assert(x[a] == '_');
        }
        assert(strip_us(x)[0] == x[a]);
    }
}

} // verus!
