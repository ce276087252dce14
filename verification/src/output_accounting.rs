//! Output accounting: long-term candidates mirrored (never moved) under a
//! mirror root, with glob rules deciding which files are skipped,
//! compressed or copied, and the byte totals the projection reports.

use vstd::prelude::*;
use crate::text::{chars_to_string, owned, str_chars, str_eq, str_trim, trim_seq};

verus! {

/// The mirror directory name of a source path: `/` and `\` become `__`,
/// `:` becomes `_`.
pub open spec fn slug_text(s: Seq<char>) -> Seq<char>
    decreases s.len(),
{
    if s.len() == 0 {
        Seq::empty()
    } else {
        let c = s.last();
        slug_text(s.drop_last()) + if c == '/' || c == '\\' {
            seq!['_', '_']
        } else if c == ':' {
            seq!['_']
        } else {
            seq![c]
        }
    }
}

/// Turns a source path into a flat mirror directory name.
pub fn safe_slug(path: &str) -> (r: String)
    ensures
        r@ == slug_text(path@),
{
    let v = str_chars(path);
    let mut out: Vec<char> = Vec::new();
    let mut i: usize = 0;
    while i < v.len()
        invariant
            i <= v.len(),
            v@ == path@,
            out@ == slug_text(v@.subrange(0, i as int)),
        decreases v.len() - i,
    {
        let c = v[i];
        let ghost before = out@;
        if c == '/' || c == '\\' {
            out.push('_');
            out.push('_');
        } else if c == ':' {
            out.push('_');
        } else {
            out.push(c);
        }
        proof {
            let sub = v@.subrange(0, i + 1);
            assert(sub.drop_last() =~= v@.subrange(0, i as int));
            assert(sub.last() == c);
            assert(out@ =~= slug_text(sub));
        }
        i += 1;
    }
    proof {
        assert(v@.subrange(0, v@.len() as int) =~= v@);
    }
    chars_to_string(out.as_slice())
}

/// The regex text of one glob character: `*` any run, `?` any character,
/// regex metacharacters escaped, everything else itself.
pub open spec fn glob_char_regex(c: char) -> Seq<char> {
    if c == '*' {
        seq!['.', '*']
    } else if c == '?' {
        seq!['.']
    } else if c == '.' || c == '+' || c == '(' || c == ')' || c == '|' || c == '^' || c == '$' || c == '{'
        || c == '}' || c == '[' || c == ']' || c == '\\' {
        seq!['\\', c]
    } else {
        seq![c]
    }
}

/// The regex body of a glob.
pub open spec fn glob_body(p: Seq<char>) -> Seq<char>
    decreases p.len(),
{
    if p.len() == 0 { Seq::empty() } else { glob_body(p.drop_last()) + glob_char_regex(p.last()) }
}

/// The anchored regex of a glob.
pub open spec fn glob_regex(p: Seq<char>) -> Seq<char> {
    seq!['^'] + glob_body(p) + seq!['$']
}

/// Translates a glob into an anchored regular expression.
pub fn glob_to_regex(pattern: &str) -> (r: String)
    ensures
        r@ == glob_regex(pattern@),
{
    let v = str_chars(pattern);
    let mut out: Vec<char> = Vec::new();
    out.push('^');
    let mut i: usize = 0;
    while i < v.len()
        invariant
            i <= v.len(),
            v@ == pattern@,
            out@ == seq!['^'] + glob_body(v@.subrange(0, i as int)),
        decreases v.len() - i,
    {
        let c = v[i];
        let ghost before = out@;
        if c == '*' {
            out.push('.');
            out.push('*');
        } else if c == '?' {
            out.push('.');
        } else if c == '.' || c == '+' || c == '(' || c == ')' || c == '|' || c == '^' || c == '$' || c == '{'
            || c == '}' || c == '[' || c == ']' || c == '\\' {
            out.push('\\');
            out.push(c);
        } else {
            out.push(c);
        }
        proof {
            let sub = v@.subrange(0, i + 1);
            assert(sub.drop_last() =~= v@.subrange(0, i as int));
            assert(sub.last() == c);
            assert(out@ =~= seq!['^'] + glob_body(sub));
        }
        i += 1;
    }
    out.push('$');
    proof {
        assert(v@.subrange(0, v@.len() as int) =~= v@);
    }
    chars_to_string(out.as_slice())
}

/// Whether the regular expression `pattern` compiles and matches somewhere
/// in `text` (`None` when it does not compile), as the `regex` crate
/// decides it.
pub uninterp spec fn regex_match_result(pattern: Seq<char>, text: Seq<char>) -> Option<bool>;

/// Compiles `pattern` with `regex::Regex::new` and asks `Regex::is_match`
/// about `text`; a pattern that does not compile gives `None`. What the
/// crate decides is named, not stated: the result is the same for the same
/// pattern and text.
#[verifier::external_body]
fn regex_match(pattern: &str, text: &str) -> (r: Option<bool>)
    ensures
        r == regex_match_result(pattern@, text@),
{
    match regex::Regex::new(pattern) {
        Ok(re) => Some(re.is_match(text)),
        Err(_) => None,
    }
}

/// The glob matches the path: its regex compiles and matches.
pub open spec fn glob_matches(glob: Seq<char>, path: Seq<char>) -> bool {
    regex_match_result(glob_regex(glob), path) == Some(true)
}

/// Whether any of the globs matches the path.
pub fn matches_any(path: &str, patterns: &Vec<String>) -> (r: bool)
    ensures
        r == exists|i: int| 0 <= i < patterns@.len() && glob_matches(#[trigger] patterns@[i]@, path@),
{
    let mut i: usize = 0;
    while i < patterns.len()
        invariant
            i <= patterns.len(),
            forall|j: int| 0 <= j < i ==> !glob_matches(#[trigger] patterns@[j]@, path@),
        decreases patterns.len() - i,
    {
        let re = glob_to_regex(patterns[i].as_str());
        if regex_match(re.as_str(), path) == Some(true) {
            proof {
                assert(glob_matches(patterns@[i as int]@, path@));
            }
            return true;
        }
        i += 1;
    }
    false
}

/// What the mirror does with one source file.
#[derive(Debug, Clone, Copy, PartialEq, Eq, Structural)]
pub enum FileDisposition {
    /// An exclude glob matches: counted as skipped.
    Skip,
    /// A compress glob matches: written gzip-compressed as `<name>.gz`.
    Compress,
    /// Copied as it is.
    Copy,
}

/// The path relative to the source root with `\` separators turned into `/`.
pub open spec fn forward_slashes(s: Seq<char>) -> Seq<char> {
    s.map_values(|c: char| if c == '\\' { '/' } else { c })
}

/// Decides what the mirror does with a file: exclusion wins over
/// compression, and everything else is copied.
pub fn file_disposition(rel_path: &str, exclude_globs: &Vec<String>, compress_globs: &Vec<String>) -> (d: FileDisposition)
    ensures
        d == if exists|i: int| 0 <= i < exclude_globs@.len() && glob_matches(#[trigger] exclude_globs@[i]@, forward_slashes(rel_path@)) {
            FileDisposition::Skip
        } else if exists|i: int| 0 <= i < compress_globs@.len() && glob_matches(#[trigger] compress_globs@[i]@, forward_slashes(rel_path@)) {
            FileDisposition::Compress
        } else {
            FileDisposition::Copy
        },
{
    let v = str_chars(rel_path);
    let mut w: Vec<char> = Vec::new();
    let mut i: usize = 0;
    while i < v.len()
        invariant
            i <= v.len(),
            v@ == rel_path@,
            w@ == forward_slashes(v@.subrange(0, i as int)),
        decreases v.len() - i,
    {
        w.push(if v[i] == '\\' { '/' } else { v[i] });
        proof {
            assert(forward_slashes(v@.subrange(0, i + 1)) =~= forward_slashes(v@.subrange(0, i as int)).push(
                if v@[i as int] == '\\' { '/' } else { v@[i as int] },
            ));
        }
        i += 1;
    }
    proof {
        assert(v@.subrange(0, v@.len() as int) =~= v@);
    }
    let rel = chars_to_string(w.as_slice());
    if matches_any(rel.as_str(), exclude_globs) {
        FileDisposition::Skip
    } else if matches_any(rel.as_str(), compress_globs) {
        FileDisposition::Compress
    } else {
        FileDisposition::Copy
    }
}

/// Running totals of one mirrored tree.
pub struct MirrorStats {
    pub files: u64,
    pub bytes: u64,
    pub skipped_files: u64,
    pub skipped_bytes: u64,
    pub compressed_files: u64,
    pub observed_source_bytes: u64,
}

impl MirrorStats {
    /// All totals zero.
    pub fn new() -> (s: Self)
        ensures
            s.files == 0 && s.bytes == 0 && s.skipped_files == 0 && s.skipped_bytes == 0
                && s.compressed_files == 0 && s.observed_source_bytes == 0,
    {
        MirrorStats { files: 0, bytes: 0, skipped_files: 0, skipped_bytes: 0, compressed_files: 0, observed_source_bytes: 0 }
    }

    /// Accounts a file of `source_bytes` that was skipped (excluded, or its
    /// compression failed).
    pub fn record_skipped(&mut self, source_bytes: u64)
        requires
            old(self).observed_source_bytes + source_bytes <= u64::MAX,
            old(self).skipped_bytes + source_bytes <= u64::MAX,
            old(self).skipped_files < u64::MAX,
        ensures
            final(self).observed_source_bytes == old(self).observed_source_bytes + source_bytes,
            final(self).skipped_files == old(self).skipped_files + 1,
            final(self).skipped_bytes == old(self).skipped_bytes + source_bytes,
            final(self).files == old(self).files,
            final(self).bytes == old(self).bytes,
            final(self).compressed_files == old(self).compressed_files,
    {
        self.observed_source_bytes = self.observed_source_bytes + source_bytes;
        self.skipped_files = self.skipped_files + 1;
        self.skipped_bytes = self.skipped_bytes + source_bytes;
    }

    /// Accounts a file of `source_bytes` written compressed in
    /// `written_bytes`.
    pub fn record_compressed(&mut self, source_bytes: u64, written_bytes: u64)
        requires
            old(self).observed_source_bytes + source_bytes <= u64::MAX,
            old(self).bytes + written_bytes <= u64::MAX,
            old(self).files < u64::MAX,
            old(self).compressed_files < u64::MAX,
        ensures
            final(self).observed_source_bytes == old(self).observed_source_bytes + source_bytes,
            final(self).files == old(self).files + 1,
            final(self).bytes == old(self).bytes + written_bytes,
            final(self).compressed_files == old(self).compressed_files + 1,
            final(self).skipped_files == old(self).skipped_files,
            final(self).skipped_bytes == old(self).skipped_bytes,
    {
        self.observed_source_bytes = self.observed_source_bytes + source_bytes;
        self.files = self.files + 1;
        self.bytes = self.bytes + written_bytes;
        self.compressed_files = self.compressed_files + 1;
    }

    /// Accounts a file of `source_bytes` copied as it is.
    pub fn record_copied(&mut self, source_bytes: u64)
        requires
            old(self).observed_source_bytes + source_bytes <= u64::MAX,
            old(self).bytes + source_bytes <= u64::MAX,
            old(self).files < u64::MAX,
        ensures
            final(self).observed_source_bytes == old(self).observed_source_bytes + source_bytes,
            final(self).files == old(self).files + 1,
            final(self).bytes == old(self).bytes + source_bytes,
            final(self).compressed_files == old(self).compressed_files,
            final(self).skipped_files == old(self).skipped_files,
            final(self).skipped_bytes == old(self).skipped_bytes,
    {
        self.observed_source_bytes = self.observed_source_bytes + source_bytes;
        self.files = self.files + 1;
        self.bytes = self.bytes + source_bytes;
    }
}

/// How a long-term candidate is accounted.
#[derive(Debug, Clone, Copy, PartialEq, Eq, Structural)]
pub enum AccountingAction {
    /// Only a manifest of the tree is written.
    SnapshotManifest,
    /// The tree is mirrored file by file.
    MirrorTree,
}

/// One candidate of the topology's `long_term_accounting_candidates`.
pub struct AccountingCandidate {
    pub path: Option<String>,
    pub recommended_action: Option<String>,
}

/// What the accounting does for one candidate.
pub struct CandidatePlan {
    /// The source path relative to the workspace, trimmed.
    pub source_rel: String,
    /// The recommended action as reported (`mirror_tree` by default).
    pub recommended_action: String,
    pub action: AccountingAction,
    /// The mirror directory name under the mirror root.
    pub mirror_slug: String,
}

/// The plan owed for a candidate.
pub open spec fn candidate_plan_of(c: AccountingCandidate, p: CandidatePlan) -> bool {
    let src = match c.path {
        Some(s) => trim_seq(s@),
        None => Seq::empty(),
    };
    let action = match c.recommended_action {
        Some(a) => a@,
        None => "mirror_tree"@,
    };
    &&& p.source_rel@ == src
    &&& p.recommended_action@ == action
    &&& p.action == if action == "snapshot_manifest"@ {
        AccountingAction::SnapshotManifest
    } else {
        AccountingAction::MirrorTree
    }
    &&& p.mirror_slug@ == slug_text(src)
}

/// Plans one candidate: a `snapshot_manifest` recommendation writes a
/// manifest only; anything else mirrors the tree, into a directory named
/// after the source path.
pub fn plan_candidate(c: &AccountingCandidate) -> (p: CandidatePlan)
    ensures
        candidate_plan_of(*c, p),
{
    let src = match &c.path {
        Some(s) => chars_to_string(str_trim(s.as_str()).as_slice()),
        None => owned(""),
    };
    proof {
        if c.path is None {
            reveal_strlit("");
            assert(src@ =~= Seq::<char>::empty());
        }
    }
    let action = match &c.recommended_action {
        Some(a) => owned(a.as_str()),
        None => owned("mirror_tree"),
    };
    let kind = if str_eq(action.as_str(), "snapshot_manifest") {
        AccountingAction::SnapshotManifest
    } else {
        AccountingAction::MirrorTree
    };
    let slug = safe_slug(src.as_str());
    CandidatePlan { source_rel: src, recommended_action: action, action: kind, mirror_slug: slug }
}

/// A backup file is one whose name contains `.bak.`.
pub open spec fn is_backup_name(name: Seq<char>) -> bool {
    crate::text::contains_seq(name, ".bak."@)
}

/// Whether a file name marks a backup.
pub fn is_backup_file_name(name: &str) -> (r: bool)
    ensures
        r == is_backup_name(name@),
{
    crate::text::str_contains(name, ".bak.")
}

/// The build cache is within its budget.
pub fn build_cache_status(observed_bytes: u64, max_bytes: u64) -> (s: &'static str)
    ensures
        s@ == if observed_bytes <= max_bytes { "ok"@ } else { "pressure_remaining"@ },
{
    if observed_bytes <= max_bytes { "ok" } else { "pressure_remaining" }
}

/// Directories the mirror never descends into: `.git`, `__pycache__` and
/// `node_modules` (by the directory's own name; `None` when the path has
/// no UTF-8 name).
pub fn should_skip_dir(name: Option<&str>) -> (r: bool)
    ensures
        r == match name {
            Some(n) => n@ == ".git"@ || n@ == "__pycache__"@ || n@ == "node_modules"@,
            None => false,
        },
{
    match name {
        Some(n) => str_eq(n, ".git") || str_eq(n, "__pycache__") || str_eq(n, "node_modules"),
        None => false,
    }
}

/// Law (mirror slugs): a slug is built piece by piece (the slug of two
/// joined paths is the two slugs joined); it holds no "/", "\" or ":",
/// and a path without them is its own slug.
pub proof fn law_slug_is_flat(x: Seq<char>, y: Seq<char>)
    ensures
        slug_text(x + y) == slug_text(x) + slug_text(y),
        forall|i: int| 0 <= i < slug_text(x).len() ==> #[trigger] slug_text(x)[i] != '/' && slug_text(x)[i] != '\\'
            && slug_text(x)[i] != ':',
        (forall|i: int| 0 <= i < x.len() ==> #[trigger] x[i] != '/' && x[i] != '\\' && x[i] != ':') ==> slug_text(x) == x,
    decreases y.len(),
{
    lemma_slug_flat(x);
    if y.len() > 0 {
        law_slug_is_flat(x, y.drop_last());
        assert((x + y).drop_last() =~= x + y.drop_last());
        assert((x + y).last() == y.last());
    } else {
        assert(x + y =~= x);
        assert(slug_text(x) + slug_text(y) =~= slug_text(x));
    }
}

proof fn lemma_slug_flat(x: Seq<char>)
    ensures
        forall|i: int| 0 <= i < slug_text(x).len() ==> #[trigger] slug_text(x)[i] != '/' && slug_text(x)[i] != '\\'
            && slug_text(x)[i] != ':',
        (forall|i: int| 0 <= i < x.len() ==> #[trigger] x[i] != '/' && x[i] != '\\' && x[i] != ':') ==> slug_text(x) == x,
    decreases x.len(),
{
    if x.len() > 0 {
        let p = x.drop_last();
        lemma_slug_flat(p);
        let c = x.last();
        let tail: Seq<char> = if c == '/' || c == '\\' { seq!['_', '_'] } else if c == ':' { seq!['_'] } else { seq![c] };
        let s = slug_text(x);
        assert(s == slug_text(p) + tail);
        assert forall|i: int| 0 <= i < s.len() implies #[trigger] s[i] != '/' && s[i] != '\\' && s[i] != ':' by {
            if i < slug_text(p).len() {
                assert(s[i] == slug_text(p)[i]);
            } else {
                assert(s[i] == tail[i - slug_text(p).len()]);
            }
        }
        if forall|i: int| 0 <= i < x.len() ==> #[trigger] x[i] != '/' && x[i] != '\\' && x[i] != ':' {
            assert forall|i: int| 0 <= i < p.len() implies #[trigger] p[i] != '/' && p[i] != '\\' && p[i] != ':' by {
                assert(p[i] == x[i]);
            }
            assert(x[x.len() - 1] == c);
            assert(s =~= x);
        }
    }
}

/// Law (accounting plans and backups): a candidate without a recommended
/// action is mirrored as "mirror_tree"; only "snapshot_manifest" writes a
/// manifest alone; a file is a backup exactly when its name contains
/// ".bak.".
pub proof fn law_accounting_plans(c: AccountingCandidate, p: CandidatePlan, name: Seq<char>)
    requires
        candidate_plan_of(c, p),
    ensures
        c.recommended_action is None ==> p.recommended_action@ == "mirror_tree"@ && p.action == AccountingAction::MirrorTree,
        (p.action == AccountingAction::SnapshotManifest) <==> (c.recommended_action matches Some(a) && a@ == "snapshot_manifest"@),
        is_backup_name(name) <==> crate::text::contains_seq(name, ".bak."@),
{
    reveal_strlit("mirror_tree");
    reveal_strlit("snapshot_manifest");
    assert("mirror_tree"@.len() != "snapshot_manifest"@.len());
}

} // verus!
