//! The sovereign model route matrix (a TOML file edited as text): reading
//! its default inference origin and pointing it, and the primary origin of
//! the code, research and chat tiers, somewhere else.

use vstd::prelude::*;
use crate::agent_routes::indent_of;
use crate::lines::{
    join_lines, join_lines_exec, lemma_join_ends_with_last, lemma_lines_have_no_newline, lemma_lines_of_join,
    lines_of, no_newline, split_lines, strip_cr,
};
use crate::text::{
    chars_eq, chars_to_string, occurs_at_exec, owned, push_chars, push_str, starts_with_seq, str_chars,
    trim_chars, trim_seq, is_white_space, lemma_trim_drop_trailing_ws, lemma_trim_padded,
};

verus! {

/// The number of `"` characters at the start of `s`.
pub open spec fn leading_quotes(s: Seq<char>) -> nat
    decreases s.len(),
{
    if s.len() > 0 && s[0] == '"' { 1 + leading_quotes(s.drop_first()) } else { 0 }
}

/// The number of `"` characters at the end of `s`.
pub open spec fn trailing_quotes(s: Seq<char>) -> nat
    decreases s.len(),
{
    if s.len() > 0 && s.last() == '"' { 1 + trailing_quotes(s.drop_last()) } else { 0 }
}

/// `s.trim_matches('"')`: the text without its leading and trailing quotes.
pub open spec fn strip_quotes(s: Seq<char>) -> Seq<char> {
    let a = leading_quotes(s) as int;
    if a >= s.len() {
        Seq::empty()
    } else {
        s.subrange(a, s.len() - trailing_quotes(s) as int)
    }
}

/// The origin a line assigns, if it is a `default_inference_origin = ...`
/// line.
pub open spec fn origin_in_line(line: Seq<char>) -> Option<Seq<char>> {
    let t = trim_seq(line);
    let key = "default_inference_origin"@;
    if starts_with_seq(t, key) {
        let rest = trim_seq(t.subrange(key.len() as int, t.len() as int));
        if rest.len() > 0 && rest[0] == '=' {
            Some(strip_quotes(trim_seq(rest.subrange(1, rest.len() as int))))
        } else {
            None
        }
    } else {
        None
    }
}

/// The origin assigned by the first assigning line from `k` on.
pub open spec fn first_origin(ls: Seq<Seq<char>>, k: int) -> Option<Seq<char>>
    decreases ls.len() - k,
{
    if k < 0 || k >= ls.len() {
        None
    } else {
        match origin_in_line(ls[k]) {
            Some(o) => Some(o),
            None => first_origin(ls, k + 1),
        }
    }
}

/// The route matrix's default inference origin, `auto` when it sets none.
pub open spec fn matrix_origin(raw: Seq<char>) -> Seq<char> {
    match first_origin(lines_of(raw), 0) {
        Some(o) => o,
        None => "auto"@,
    }
}

proof fn lemma_leading_quotes(s: Seq<char>, i: int)
    requires
        0 <= i <= s.len(),
        forall|j: int| 0 <= j < i ==> s[j] == '"',
        i == s.len() || s[i] != '"',
    ensures
        leading_quotes(s) == i,
    decreases i,
{
    if i > 0 {
        lemma_leading_quotes(s.drop_first(), i - 1);
    }
}

proof fn lemma_trailing_quotes(s: Seq<char>, k: int)
    requires
        0 <= k <= s.len(),
        forall|j: int| s.len() - k <= j < s.len() ==> s[j] == '"',
        k == s.len() || s[s.len() - k - 1] != '"',
    ensures
        trailing_quotes(s) == k,
    decreases k,
{
    if k > 0 {
        lemma_trailing_quotes(s.drop_last(), k - 1);
    }
}

fn slice(v: &Vec<char>, a: usize, b: usize) -> (r: Vec<char>)
    requires
        a <= b <= v@.len(),
    ensures
        r@ == v@.subrange(a as int, b as int),
{
    let mut out: Vec<char> = Vec::new();
    let mut i: usize = a;
    while i < b
        invariant
            a <= i <= b,
            b <= v@.len(),
            out@ == v@.subrange(a as int, i as int),
        decreases b - i,
    {
        out.push(v[i]);
        proof {
            assert(v@.subrange(a as int, i + 1) =~= v@.subrange(a as int, i as int).push(v@[i as int]));
        }
        i += 1;
    }
    out
}

fn strip_quotes_exec(v: &Vec<char>) -> (r: Vec<char>)
    ensures
        r@ == strip_quotes(v@),
{
    let mut a: usize = 0;
    while a < v.len() && v[a] == '"'
        invariant
            a <= v.len(),
            forall|j: int| 0 <= j < a ==> v@[j] == '"',
        decreases v.len() - a,
    {
        a += 1;
    }
    proof {
        lemma_leading_quotes(v@, a as int);
    }
    if a == v.len() {
        return Vec::new();
    }
    let mut k: usize = 0;
    while k < v.len() - a && v[v.len() - 1 - k] == '"'
        invariant
            a < v.len(),
            k <= v.len() - a,
            forall|j: int| v.len() - k <= j < v.len() ==> v@[j] == '"',
        decreases v.len() - a - k,
    {
        k += 1;
    }
    proof {
        if k == v.len() - a {
            assert(v@[a as int] == '"');
        }
        lemma_trailing_quotes(v@, k as int);
    }
    slice(v, a, v.len() - k)
}

fn origin_in_line_exec(line: &Vec<char>, key: &Vec<char>) -> (r: Option<Vec<char>>)
    requires
        key@ == "default_inference_origin"@,
    ensures
        match r {
            Some(o) => origin_in_line(line@) == Some(o@),
            None => origin_in_line(line@) is None,
        },
{
    let t = trim_chars(line);
    if key.len() > t.len() || !occurs_at_exec(&t, key, 0) {
        return None;
    }
    let after = slice(&t, key.len(), t.len());
    let rest = trim_chars(&after);
    if rest.len() == 0 || rest[0] != '=' {
        return None;
    }
    let tail = slice(&rest, 1, rest.len());
    let value = trim_chars(&tail);
    Some(strip_quotes_exec(&value))
}

/// Reads the default inference origin of the route matrix: the value of
/// the first `default_inference_origin = ...` line, unquoted, or `auto`.
pub fn current_route_origin(route_matrix: &str) -> (r: String)
    ensures
        r@ == matrix_origin(route_matrix@),
{
    let v = str_chars(route_matrix);
    let ls = split_lines(&v);
    let key = str_chars("default_inference_origin");
    let ghost lv = ls@.map_values(|l: Vec<char>| l@);
    let mut k: usize = 0;
    while k < ls.len()
        invariant
            k <= ls.len(),
            key@ == "default_inference_origin"@,
            lv == ls@.map_values(|l: Vec<char>| l@),
            lv == lines_of(route_matrix@),
            first_origin(lv, 0) == first_origin(lv, k as int),
        decreases ls.len() - k,
    {
        match origin_in_line_exec(&ls[k], &key) {
            Some(o) => {
                return chars_to_string(o.as_slice());
            },
            None => {},
        }
        k += 1;
    }
    owned("auto")
}

/// The line is a table header `[...]`.
pub open spec fn is_header(line: Seq<char>) -> bool {
    let t = trim_seq(line);
    t.len() > 0 && t[0] == '[' && t.last() == ']'
}

/// The header of the table that line `k` belongs to (`""` before any).
pub open spec fn section_at(ls: Seq<Seq<char>>, k: int) -> Seq<char>
    decreases k,
{
    if k <= 0 {
        Seq::empty()
    } else if is_header(ls[k - 1]) {
        trim_seq(ls[k - 1])
    } else {
        section_at(ls, k - 1)
    }
}

/// A tier whose primary origin follows the default origin.
pub open spec fn is_origin_tier(section: Seq<char>) -> bool {
    section == "[tiers.code]"@ || section == "[tiers.research]"@ || section == "[tiers.chat]"@
}

/// One line of the rewritten matrix.
pub open spec fn rewrite_origin_line(line: Seq<char>, section: Seq<char>, desired: Seq<char>) -> Seq<char> {
    let t = trim_seq(line);
    if is_header(line) {
        line
    } else if starts_with_seq(t, "default_inference_origin"@) {
        indent_of(line) + "default_inference_origin = \""@ + desired + "\""@
    } else if is_origin_tier(section) && starts_with_seq(t, "primary_origin"@) {
        indent_of(line) + "primary_origin = \""@ + desired + "\""@
    } else {
        line
    }
}

/// The route matrix pointed at `desired`: every default-origin line, and
/// the primary origin of the code, research and chat tiers, rewritten in
/// place; all other lines kept; a final newline kept.
pub open spec fn matrix_with_origin(raw: Seq<char>, desired: Seq<char>) -> Seq<char> {
    let ls = lines_of(raw);
    let rewritten = Seq::new(ls.len(), |k: int| rewrite_origin_line(ls[k], section_at(ls, k), desired));
    join_lines(rewritten) + if raw.len() > 0 && raw.last() == '\n' { "\n"@ } else { Seq::empty() }
}

fn starts_with_text(t: &Vec<char>, prefix: &str) -> (r: bool)
    ensures
        r == starts_with_seq(t@, prefix@),
{
    let p = str_chars(prefix);
    p.len() <= t.len() && occurs_at_exec(t, &p, 0)
}

fn is_header_exec(line: &Vec<char>) -> (r: bool)
    ensures
        r == is_header(line@),
{
    let t = trim_chars(line);
    t.len() > 0 && t[0] == '[' && t[t.len() - 1] == ']'
}

fn is_origin_tier_exec(section: &Vec<char>) -> (r: bool)
    ensures
        r == is_origin_tier(section@),
{
    chars_eq(section, &str_chars("[tiers.code]")) || chars_eq(section, &str_chars("[tiers.research]"))
        || chars_eq(section, &str_chars("[tiers.chat]"))
}

fn assigned_line(line: &Vec<char>, key: &str, desired: &str) -> (r: Vec<char>)
    ensures
        r@ == indent_of(line@) + key@ + " = \""@ + desired@ + "\""@,
{
    let mut out = crate::agent_routes::indent_exec(line);
    push_str(&mut out, key);
    push_str(&mut out, " = \"");
    push_str(&mut out, desired);
    push_str(&mut out, "\"");
    out
}

/// Points the route matrix at `desired`: rewrites every
/// `default_inference_origin` line and the `primary_origin` of the code,
/// research and chat tiers, keeping indentation and all other lines.
pub fn update_route_matrix_origins(raw: &str, desired_origin: &str) -> (r: String)
    ensures
        r@ == matrix_with_origin(raw@, desired_origin@),
{
    let v = str_chars(raw);
    let ls = split_lines(&v);
    let ghost lv = ls@.map_values(|l: Vec<char>| l@);
    let ghost target = Seq::new(lv.len(), |k: int| rewrite_origin_line(lv[k], section_at(lv, k), desired_origin@));
    let mut section: Vec<char> = Vec::new();
    let mut out: Vec<Vec<char>> = Vec::new();
    let mut k: usize = 0;
    while k < ls.len()
        invariant
            k <= ls.len(),
            lv == ls@.map_values(|l: Vec<char>| l@),
            lv == lines_of(raw@),
            target == Seq::new(lv.len(), |k: int| rewrite_origin_line(lv[k], section_at(lv, k), desired_origin@)),
            section@ == section_at(lv, k as int),
            out@.map_values(|l: Vec<char>| l@) == target.subrange(0, k as int),
        decreases ls.len() - k,
    {
        let line = &ls[k];
        let t = trim_chars(line);
        let ghost before = out@.map_values(|l: Vec<char>| l@);
        proof {
            assert(line@ == lv[k as int]);
        }
        let new_line = if is_header_exec(line) {
            slice(line, 0, line.len())
        } else if starts_with_text(&t, "default_inference_origin") {
            assigned_line(line, "default_inference_origin", desired_origin)
        } else if is_origin_tier_exec(&section) && starts_with_text(&t, "primary_origin") {
            assigned_line(line, "primary_origin", desired_origin)
        } else {
            slice(line, 0, line.len())
        };
        proof {
            reveal_strlit("default_inference_origin");
            reveal_strlit("primary_origin");
            reveal_strlit(" = \"");
            reveal_strlit("\"");
            reveal_strlit("default_inference_origin = \"");
            reveal_strlit("primary_origin = \"");
            assert("default_inference_origin"@ + " = \""@ =~= "default_inference_origin = \""@);
            assert("primary_origin"@ + " = \""@ =~= "primary_origin = \""@);
            assert(target[k as int] == rewrite_origin_line(lv[k as int], section_at(lv, k as int), desired_origin@));
            assert(t@ == trim_seq(lv[k as int]));
            assert(line@.subrange(0, line@.len() as int) =~= line@);
            assert(new_line@ == rewrite_origin_line(lv[k as int], section_at(lv, k as int), desired_origin@));
        }
        if is_header_exec(line) {
            section = t;
        }
        out.push(new_line);
        proof {
            assert(out@.map_values(|l: Vec<char>| l@) =~= before.push(target[k as int]));
            assert(target.subrange(0, k + 1) =~= target.subrange(0, k as int).push(target[k as int]));
        }
        k += 1;
    }
    proof {
        assert(target.subrange(0, target.len() as int) =~= target);
    }
    let mut joined = join_lines_exec(&out);
    if v.len() > 0 && v[v.len() - 1] == '\n' {
        joined.push('\n');
        proof {
            reveal_strlit("\n");
        }
    }
    proof {
        if !(raw@.len() > 0 && raw@.last() == '\n') {
            assert(joined@ =~= joined@ + Seq::<char>::empty());
        }
    }
    chars_to_string(joined.as_slice())
}

/// The line sets the default inference origin: its trimmed text starts
/// with `default_inference_origin`.
pub open spec fn sets_origin(line: Seq<char>) -> bool {
    starts_with_seq(trim_seq(line), "default_inference_origin"@)
}

/// An origin that can stand between the quotes of a matrix line: it holds
/// no newline and neither starts nor ends with a quote.
pub open spec fn plain_origin(d: Seq<char>) -> bool {
    no_newline(d) && (d.len() > 0 ==> d[0] != '"' && d[d.len() - 1] != '"')
}

/// The first line from `i` on that sets the origin, given that one does.
proof fn first_setting_line(ls: Seq<Seq<char>>, i: int) -> (k: int)
    requires
        0 <= i <= ls.len(),
        exists|j: int| i <= j < ls.len() && sets_origin(#[trigger] ls[j]),
    ensures
        i <= k < ls.len(),
        sets_origin(ls[k]),
        forall|j: int| i <= j < k ==> !sets_origin(#[trigger] ls[j]),
    decreases ls.len() - i,
{
    if sets_origin(ls[i]) {
        i
    } else {
        let w = choose|j: int| i <= j < ls.len() && sets_origin(#[trigger] ls[j]);
        assert(i + 1 <= w);
        first_setting_line(ls, i + 1)
    }
}

proof fn lemma_spaces_ws(n: nat)
    ensures
        forall|i: int| 0 <= i < crate::agent_routes::spaces(n).len() ==> is_white_space(
            #[trigger] crate::agent_routes::spaces(n)[i],
        ),
{
}

/// A rewritten `key = "value"` line, indented, trims to its text.
proof fn lemma_trim_assignment(line: Seq<char>, body: Seq<char>)
    requires
        body.len() > 0,
        !is_white_space(body[0]),
        body[body.len() - 1] == '"',
    ensures
        trim_seq(indent_of(line) + body) == body,
{
    lemma_spaces_ws(crate::agent_routes::utf8_len_seq(line.subrange(0, crate::lines::leading_ws_len(line))));
    lemma_trim_padded(indent_of(line), body, Seq::empty());
    assert(indent_of(line) + body + Seq::<char>::empty() =~= indent_of(line) + body);
}

/// The origin read back from the rewritten default-origin line.
proof fn lemma_origin_of_rewritten(line: Seq<char>, d: Seq<char>)
    requires
        plain_origin(d),
    ensures
        origin_in_line(indent_of(line) + "default_inference_origin = \""@ + d + "\""@) == Some(d),
{
    reveal_strlit("default_inference_origin = \"");
    reveal_strlit("default_inference_origin");
    reveal_strlit("\"");
    let key = "default_inference_origin"@;
    let body = "default_inference_origin = \""@ + d + "\""@;
    lemma_trim_assignment(line, body);
    let full = indent_of(line) + "default_inference_origin = \""@ + d + "\""@;
    assert(full =~= indent_of(line) + body);
    let t = trim_seq(full);
    assert(t == body);
    assert(t.subrange(0, key.len() as int) =~= key);
    let after = t.subrange(key.len() as int, t.len() as int);
    let rest_body = seq!['=', ' ', '"'] + d + seq!['"'];
    assert(after =~= seq![' '] + rest_body + Seq::<char>::empty());
    lemma_trim_padded(seq![' '], rest_body, Seq::empty());
    let rest = trim_seq(after);
    assert(rest == rest_body);
    let tail = rest.subrange(1, rest.len() as int);
    let quoted = seq!['"'] + d + seq!['"'];
    assert(tail =~= seq![' '] + quoted + Seq::<char>::empty());
    lemma_trim_padded(seq![' '], quoted, Seq::empty());
    assert(trim_seq(tail) == quoted);
    if d.len() == 0 {
        assert(quoted =~= seq!['"', '"']);
        lemma_leading_quotes(quoted, 2);
        assert(strip_quotes(quoted) =~= d);
    } else {
        lemma_leading_quotes(quoted, 1);
        lemma_trailing_quotes(quoted, 1);
        assert(quoted.subrange(1, quoted.len() - 1) =~= d);
    }
}

/// A line whose trimmed text does not start with the key assigns no origin.
proof fn lemma_no_origin(line: Seq<char>)
    requires
        !sets_origin(line),
    ensures
        origin_in_line(line) is None,
{
}

/// Every rewritten line is free of newlines.
#[verifier::spinoff_prover]
proof fn lemma_rewritten_have_no_newline(raw: Seq<char>, desired: Seq<char>, r: Seq<Seq<char>>)
    requires
        plain_origin(desired),
        r == Seq::new(lines_of(raw).len(), |k: int| rewrite_origin_line(lines_of(raw)[k], section_at(lines_of(raw), k), desired)),
    ensures
        forall|i: int| 0 <= i < r.len() ==> no_newline(#[trigger] r[i]),
{
    reveal_strlit("default_inference_origin");
    reveal_strlit("default_inference_origin = \"");
    reveal_strlit("primary_origin = \"");
    reveal_strlit("\"");
    let ls = lines_of(raw);
    lemma_lines_have_no_newline(raw);
    assert forall|i: int| 0 <= i < r.len() implies no_newline(#[trigger] r[i]) by {
        let line = ls[i];
        assert(no_newline(line));
        let ind = indent_of(line);
        assert forall|j: int| 0 <= j < r[i].len() implies r[i][j] != '\n' by {
            if r[i] != line {
                if j < ind.len() {
                    assert(r[i][j] == ind[j]);
                } else if starts_with_seq(trim_seq(line), "default_inference_origin"@) && !is_header(line) {
                    let b = "default_inference_origin = \""@ + desired + "\""@;
                    assert(r[i] =~= ind + b);
                    assert(r[i][j] == b[j - ind.len()]);
                    if j - ind.len() >= 28 && j - ind.len() < 28 + desired.len() {
                        assert(b[j - ind.len()] == desired[j - ind.len() - 28]);
                    }
                } else {
                    let b = "primary_origin = \""@ + desired + "\""@;
                    assert(r[i] =~= ind + b);
                    assert(r[i][j] == b[j - ind.len()]);
                    if j - ind.len() >= 18 && j - ind.len() < 18 + desired.len() {
                        assert(b[j - ind.len()] == desired[j - ind.len() - 18]);
                    }
                }
            }
        }
    }
}

/// No line before the first one setting the origin reads as an origin once
/// rewritten.
#[verifier::spinoff_prover]
proof fn lemma_prefix_sets_no_origin(ls: Seq<Seq<char>>, r: Seq<Seq<char>>, lv: Seq<Seq<char>>, k0: int, desired: Seq<char>)
    requires
        0 <= k0 < ls.len(),
        k0 < lv.len(),
        r == Seq::new(ls.len(), |k: int| rewrite_origin_line(ls[k], section_at(ls, k), desired)),
        forall|j: int| 0 <= j < k0 ==> !sets_origin(#[trigger] ls[j]),
        forall|j: int| 0 <= j < k0 ==> #[trigger] lv[j] == strip_cr(r[j]),
    ensures
        forall|j: int| 0 <= j < k0 ==> origin_in_line(#[trigger] lv[j]) is None,
{
    reveal_strlit("default_inference_origin");
    reveal_strlit("primary_origin = \"");
    reveal_strlit("\"");
    assert forall|j: int| 0 <= j < k0 implies origin_in_line(#[trigger] lv[j]) is None by {
        let line = ls[j];
        assert(!sets_origin(line));
        assert(lv[j] == strip_cr(r[j]));
        if line.len() > 0 && line.last() == '\r' {
            lemma_trim_drop_trailing_ws(line);
        }
        if r[j] == line {
            if line.len() > 0 && line.last() == '\r' {
                assert(trim_seq(strip_cr(line)) == trim_seq(line));
            }
            assert(!sets_origin(strip_cr(r[j])));
        } else {
            let b = "primary_origin = \""@ + desired + "\""@;
            assert(r[j] =~= indent_of(line) + b);
            assert(b[b.len() - 1] == '"');
            lemma_trim_assignment(line, b);
            assert(strip_cr(r[j]) == r[j]);
            let t = trim_seq(r[j]);
            assert(t[0] == 'p');
            if sets_origin(lv[j]) {
                assert(t.subrange(0, 24) == "default_inference_origin"@);
                assert(t.subrange(0, 24)[0] == t[0]);
            }
        }
        lemma_no_origin(lv[j]);
    }
}

/// Law (what a read gives back of a write): after the route matrix is
/// pointed at an origin, reading its default inference origin gives that
/// origin back, whenever the matrix has a line setting the default origin
/// and the origin fits between the quotes of a line.
#[verifier::spinoff_prover]
#[verifier::rlimit(30)]
pub proof fn law_origin_reads_back(raw: Seq<char>, desired: Seq<char>)
    requires
        plain_origin(desired),
        exists|k: int| 0 <= k < lines_of(raw).len() && sets_origin(#[trigger] lines_of(raw)[k]),
    ensures
        matrix_origin(matrix_with_origin(raw, desired)) == desired,
{
    reveal_strlit("default_inference_origin");
    reveal_strlit("default_inference_origin = \"");
    reveal_strlit("primary_origin = \"");
    reveal_strlit("primary_origin");
    reveal_strlit("\"");
    reveal_strlit("\n");
    let ls = lines_of(raw);
    let k0 = first_setting_line(ls, 0);
    let r = Seq::new(ls.len(), |k: int| rewrite_origin_line(ls[k], section_at(ls, k), desired));
    let fnl = raw.len() > 0 && raw.last() == '\n';
    let new = matrix_with_origin(raw, desired);
    assert(new == join_lines(r) + if fnl { "\n"@ } else { Seq::<char>::empty() });
    lemma_rewritten_have_no_newline(raw, desired, r);
    // the rewritten line k0
    let line0 = ls[k0];
    assert(!is_header(line0)) by {
        let t = trim_seq(line0);
        assert(t.subrange(0, 24) == "default_inference_origin"@);
        assert(t.subrange(0, 24)[0] == t[0]);
    }
    let b0 = "default_inference_origin = \""@ + desired + "\""@;
    assert(r[k0] =~= indent_of(line0) + b0);
    let last0 = r[k0][r[k0].len() - 1];
    assert(last0 == '"');
    lemma_join_ends_with_last(r);
    if k0 == r.len() - 1 {
        assert(join_lines(r).len() > 0);
    } else {
        assert(r.len() >= 2);
    }
    lemma_lines_of_join(r, fnl);
    let lv = lines_of(new);
    let kept = if fnl || !(new.len() > 0 && new.last() == '\n') { r } else { r.drop_last() };
    assert(new.len() > 0);
    assert(lv == kept.map_values(|l: Seq<char>| strip_cr(l)));
    assert(k0 < kept.len()) by {
        if !fnl && new.last() == '\n' {
            assert(new == join_lines(r));
            if k0 == r.len() - 1 {
                assert(false);
            }
        }
    }
    // reading back
    assert(lv[k0] == strip_cr(r[k0]));
    assert(strip_cr(r[k0]) == r[k0]);
    lemma_origin_of_rewritten(line0, desired);
    assert(origin_in_line(lv[k0]) == Some(desired));
    assert forall|j: int| 0 <= j < k0 implies #[trigger] lv[j] == strip_cr(r[j]) by {
        assert(kept[j] == r[j]);
    }
    lemma_prefix_sets_no_origin(ls, r, lv, k0, desired);
    lemma_first_origin_at(lv, k0, desired);
}

/// The first origin the lines set is the one line `k` sets, when no line
/// before it sets one.
proof fn lemma_first_origin_at(lv: Seq<Seq<char>>, k: int, d: Seq<char>)
    requires
        0 <= k < lv.len(),
        origin_in_line(lv[k]) == Some(d),
        forall|j: int| 0 <= j < k ==> origin_in_line(#[trigger] lv[j]) is None,
    ensures
        first_origin(lv, 0) == Some(d),
{
    lemma_first_origin_from(lv, 0, k, d);
}

proof fn lemma_first_origin_from(lv: Seq<Seq<char>>, i: int, k: int, d: Seq<char>)
    requires
        0 <= i <= k < lv.len(),
        origin_in_line(lv[k]) == Some(d),
        forall|j: int| 0 <= j < k ==> origin_in_line(#[trigger] lv[j]) is None,
    ensures
        first_origin(lv, i) == Some(d),
    decreases k - i,
{
    if i < k {
        lemma_first_origin_from(lv, i + 1, k, d);
    }
}

proof fn lemma_no_origin_line(ls: Seq<Seq<char>>, k: int)
    requires
        0 <= k,
        forall|j: int| 0 <= j < ls.len() ==> (#[trigger] origin_in_line(ls[j])) is None,
    ensures
        first_origin(ls, k) is None,
    decreases ls.len() - k,
{
    if k < ls.len() {
        assert(origin_in_line(ls[k]) is None);
        lemma_no_origin_line(ls, k + 1);
    }
}

/// Law (default origin and origin tiers): a matrix without a
/// `default_inference_origin` assignment defaults to "auto"; the primary
/// origins that follow the default are those of the "[tiers.code]",
/// "[tiers.research]" and "[tiers.chat]" tables, and of no other table.
pub proof fn law_default_origin_and_tiers(raw: Seq<char>, section: Seq<char>)
    ensures
        (forall|j: int| 0 <= j < lines_of(raw).len() ==> (#[trigger] origin_in_line(lines_of(raw)[j])) is None)
            ==> matrix_origin(raw) == "auto"@,
        is_origin_tier(section) <==> (section == "[tiers.code]"@ || section == "[tiers.research]"@ || section == "[tiers.chat]"@),
{
    if forall|j: int| 0 <= j < lines_of(raw).len() ==> (#[trigger] origin_in_line(lines_of(raw)[j])) is None {
        lemma_no_origin_line(lines_of(raw), 0);
    }
}

} // verus!
