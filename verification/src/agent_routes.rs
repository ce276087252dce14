//! The OpenCode agent route contract (`[agents.<id>]` tables in a TOML
//! file, edited as text so that comments and layout survive), and the
//! route governor that keeps agents on recommended lanes.
//!
//! Positions in the text are counted in characters.

use vstd::prelude::*;
use crate::lines::{join_lines, join_lines_exec, lines_of, split_lines, trim_start_seq, leading_ws_len};
use crate::recovery::GovernorStatus;
use crate::text::{
    chars_eq, chars_to_string, is_white_space, occurs_at, occurs_at_exec, owned, push_str,
    str_chars, str_eq, trim_chars, trim_seq, white_space, starts_with_seq,
};

verus! {

/// The first position at or after `j` holding `c`.
pub open spec fn find_from(s: Seq<char>, c: char, j: int) -> Option<int>
    decreases s.len() - j,
{
    if j < 0 || j >= s.len() {
        None
    } else if s[j] == c {
        Some(j)
    } else {
        find_from(s, c, j + 1)
    }
}

/// The agent id of a table header `[agents.<id>]` starting at `i`, if one
/// starts there: the trimmed text up to the next `]`, when not empty.
pub open spec fn marker_at(s: Seq<char>, i: int) -> Option<Seq<char>> {
    if occurs_at(s, "[agents."@, i) {
        match find_from(s, ']', i + 8) {
            Some(e) => {
                let id = trim_seq(s.subrange(i + 8, e));
                if id.len() > 0 { Some(id) } else { None }
            },
            None => None,
        }
    } else {
        None
    }
}

/// The agent table headers that start before `n`, with their positions.
pub open spec fn markers_upto(s: Seq<char>, n: int) -> Seq<(Seq<char>, int)>
    decreases n,
{
    if n <= 0 {
        Seq::empty()
    } else {
        let prev = markers_upto(s, n - 1);
        match marker_at(s, n - 1) {
            Some(id) => prev.push((id, n - 1)),
            None => prev,
        }
    }
}

/// Each agent block: its id, where its header starts, and where the next
/// agent header (or the text) ends.
pub open spec fn agent_ranges(s: Seq<char>) -> Seq<(Seq<char>, int, int)> {
    let m = markers_upto(s, s.len() as int);
    Seq::new(m.len(), |k: int| (m[k].0, m[k].1, if k + 1 < m.len() { m[k + 1].1 } else { s.len() as int }))
}

/// The bounds of the first block among ranges `k..` with the given id.
pub open spec fn first_block(r: Seq<(Seq<char>, int, int)>, agent: Seq<char>, k: int) -> Option<(int, int)>
    decreases r.len() - k,
{
    if k < 0 || k >= r.len() {
        None
    } else if r[k].0 == agent {
        Some((r[k].1, r[k].2))
    } else {
        first_block(r, agent, k + 1)
    }
}

/// The bounds of the agent's block, if the text has one.
pub open spec fn block_bounds(s: Seq<char>, agent: Seq<char>) -> Option<(int, int)> {
    first_block(agent_ranges(s), agent, 0)
}

pub proof fn lemma_find_from_bounds(s: Seq<char>, c: char, j: int)
    requires
        0 <= j,
    ensures
        match find_from(s, c, j) {
            Some(e) => j <= e < s.len() && s[e] == c && forall|k: int| j <= k < e ==> s[k] != c,
            None => forall|k: int| j <= k < s.len() ==> s[k] != c,
        },
    decreases s.len() - j,
{
    if 0 <= j < s.len() && s[j] != c {
        lemma_find_from_bounds(s, c, j + 1);
    }
}

pub proof fn lemma_markers_sorted(s: Seq<char>, n: int)
    requires
        0 <= n <= s.len(),
    ensures
        forall|k: int| 0 <= k < markers_upto(s, n).len() ==> 0 <= #[trigger] markers_upto(s, n)[k].1 < n,
        forall|a: int, b: int| 0 <= a < b < markers_upto(s, n).len() ==> markers_upto(s, n)[a].1 < markers_upto(s, n)[b].1,
    decreases n,
{
    if n > 0 {
        lemma_markers_sorted(s, n - 1);
        let prev = markers_upto(s, n - 1);
        let cur = markers_upto(s, n);
        assert forall|k: int| 0 <= k < cur.len() implies 0 <= #[trigger] cur[k].1 < n by {
            if k < prev.len() {
                assert(cur[k] == prev[k]);
            }
        }
        assert forall|a: int, b: int| 0 <= a < b < cur.len() implies cur[a].1 < cur[b].1 by {
            assert(cur[a] == prev[a]);
            if b < prev.len() {
                assert(cur[b] == prev[b]);
            }
        }
    }
}

fn find_char_from(v: &Vec<char>, c: char, j: usize) -> (r: Option<usize>)
    ensures
        match r {
            Some(e) => find_from(v@, c, j as int) == Some(e as int),
            None => find_from(v@, c, j as int) is None,
        },
{
    let mut k: usize = j;
    while k < v.len()
        invariant
            j <= k,
            find_from(v@, c, j as int) == find_from(v@, c, k as int),
        decreases v.len() - k,
    {
        if v[k] == c {
            return Some(k);
        }
        k += 1;
    }
    None
}

fn slice_chars(v: &Vec<char>, a: usize, b: usize) -> (r: Vec<char>)
    requires
        a <= b <= v@.len(),
    ensures
        r@ == v@.subrange(a as int, b as int),
{
    let mut out: Vec<char> = Vec::new();
    let mut i: usize = a;
    while i < b
        invariant
            a <= i <= b,
            b <= v@.len(),
            out@ == v@.subrange(a as int, i as int),
        decreases b - i,
    {
        out.push(v[i]);
        proof {
            assert(v@.subrange(a as int, i + 1) =~= v@.subrange(a as int, i as int).push(v@[i as int]));
        }
        i += 1;
    }
    out
}

fn marker_at_exec(v: &Vec<char>, pat: &Vec<char>, i: usize) -> (r: Option<Vec<char>>)
    requires
        pat@ == "[agents."@,
    ensures
        match r {
            Some(id) => marker_at(v@, i as int) == Some(id@),
            None => marker_at(v@, i as int) is None,
        },
{
    proof {
        reveal_strlit("[agents.");
    }
    if !occurs_at_exec(v, pat, i) {
        return None;
    }
    proof {
        assert(pat@.len() == 8);
        assert(i + 8 <= v@.len());
        assert(i + 8 <= v.len());
    }
    match find_char_from(v, ']', i + 8) {
        Some(e) => {
            proof {
                lemma_find_from_bounds(v@, ']', i + 8);
            }
            let raw = slice_chars(v, i + 8, e);
            let id = trim_chars(&raw);
            if id.len() > 0 {
                Some(id)
            } else {
                None
            }
        },
        None => None,
    }
}

/// One agent block: its id and where it starts and ends.
pub struct AgentBlock {
    pub agent_id: String,
    pub start: usize,
    pub end: usize,
}

/// The blocks as triples.
pub open spec fn block_triples(v: Seq<AgentBlock>) -> Seq<(Seq<char>, int, int)> {
    v.map_values(|b: AgentBlock| (b.agent_id@, b.start as int, b.end as int))
}

/// Finds every agent block: each `[agents.<id>]` header opens a block that
/// runs to the next such header or to the end of the text.
pub fn extract_agent_block_ranges(toml: &str) -> (out: Vec<AgentBlock>)
    ensures
        block_triples(out@) == agent_ranges(toml@),
{
    let v = str_chars(toml);
    let pat = str_chars("[agents.");
    let mut ids: Vec<Vec<char>> = Vec::new();
    let mut starts: Vec<usize> = Vec::new();
    let mut i: usize = 0;
    while i < v.len()
        invariant
            i <= v.len(),
            v@ == toml@,
            pat@ == "[agents."@,
            ids@.len() == starts@.len(),
            ids@.len() == markers_upto(v@, i as int).len(),
            forall|k: int| 0 <= k < ids@.len() ==> (#[trigger] ids@[k])@ == markers_upto(v@, i as int)[k].0
                && starts@[k] as int == markers_upto(v@, i as int)[k].1,
        decreases v.len() - i,
    {
        let ghost prev = markers_upto(v@, i as int);
        let m = marker_at_exec(&v, &pat, i);
        let ghost mv: Option<Seq<char>> = match &m {
            Some(id) => Some(id@),
            None => None,
        };
        if let Some(id) = m {
            ids.push(id);
            starts.push(i);
        }
        proof {
            let cur = markers_upto(v@, i + 1);
            match mv {
                Some(idv) => {
                    assert(marker_at(v@, i as int) == Some(idv));
                    assert(cur == prev.push((idv, i as int)));
                },
                None => {
                    assert(cur == prev);
                },
            }
            assert forall|k: int| 0 <= k < ids@.len() implies (#[trigger] ids@[k])@ == cur[k].0
                && starts@[k] as int == cur[k].1 by {
                if k < prev.len() {
                    assert(cur[k] == prev[k]);
                }
            }
        }
        i += 1;
    }
    proof {
        lemma_markers_sorted(v@, v@.len() as int);
    }
    let ghost m = markers_upto(v@, v@.len() as int);
    let mut out: Vec<AgentBlock> = Vec::new();
    let mut k: usize = 0;
    while k < ids.len()
        invariant
            k <= ids.len(),
            v@ == toml@,
            ids@.len() == starts@.len(),
            ids@.len() == m.len(),
            m == markers_upto(v@, v@.len() as int),
            forall|j: int| 0 <= j < ids@.len() ==> (#[trigger] ids@[j])@ == m[j].0 && starts@[j] as int == m[j].1,
            block_triples(out@) == agent_ranges(toml@).subrange(0, k as int),
        decreases ids.len() - k,
    {
        let end = if k + 1 < starts.len() { starts[k + 1] } else { v.len() };
        let ghost before = block_triples(out@);
        let name = chars_to_string(ids[k].as_slice());
        proof {
            assert(ids@[k as int]@ == m[k as int].0);
            if k + 1 < starts@.len() {
                assert(ids@[k + 1]@ == m[k + 1].0);
                assert(end as int == m[k + 1].1);
            }
            assert((name@, starts@[k as int] as int, end as int) == agent_ranges(toml@)[k as int]);
        }
        out.push(AgentBlock { agent_id: name, start: starts[k], end });
        proof {
            assert(block_triples(out@) =~= before.push(agent_ranges(toml@)[k as int]));
            assert(agent_ranges(toml@).subrange(0, k + 1) =~= agent_ranges(toml@).subrange(0, k as int).push(
                agent_ranges(toml@)[k as int],
            ));
        }
        k += 1;
    }
    proof {
        assert(agent_ranges(toml@).subrange(0, m.len() as int) =~= agent_ranges(toml@));
    }
    out
}

/// Ranges lie inside the text and do not run backwards.
pub proof fn lemma_ranges_within(s: Seq<char>)
    ensures
        forall|k: int| 0 <= k < agent_ranges(s).len() ==> 0 <= (#[trigger] agent_ranges(s)[k]).1 <= agent_ranges(s)[k].2 <= s.len(),
{
    lemma_markers_sorted(s, s.len() as int);
    let m = markers_upto(s, s.len() as int);
    assert forall|k: int| 0 <= k < agent_ranges(s).len() implies 0 <= (#[trigger] agent_ranges(s)[k]).1 <= agent_ranges(s)[k].2 <= s.len() by {
        if k + 1 < m.len() {
            assert(m[k].1 < m[k + 1].1);
        }
    }
}

proof fn lemma_first_block_within(r: Seq<(Seq<char>, int, int)>, agent: Seq<char>, k: int, len: int)
    requires
        forall|j: int| 0 <= j < r.len() ==> 0 <= (#[trigger] r[j]).1 <= r[j].2 <= len,
    ensures
        match first_block(r, agent, k) {
            Some((a, b)) => 0 <= a <= b <= len,
            None => true,
        },
    decreases r.len() - k,
{
    if 0 <= k < r.len() && r[k].0 != agent {
        lemma_first_block_within(r, agent, k + 1, len);
    }
}

/// The agent's block bounds lie inside the text.
pub proof fn lemma_block_bounds_within(s: Seq<char>, agent: Seq<char>)
    ensures
        match block_bounds(s, agent) {
            Some((a, b)) => 0 <= a <= b <= s.len(),
            None => true,
        },
{
    lemma_ranges_within(s);
    lemma_first_block_within(agent_ranges(s), agent, 0, s.len() as int);
}

/// The bounds of the first block of the given agent.
pub fn get_agent_block_bounds(toml: &str, agent_id: &str) -> (r: Option<(usize, usize)>)
    ensures
        match r {
            Some((a, b)) => block_bounds(toml@, agent_id@) == Some((a as int, b as int)),
            None => block_bounds(toml@, agent_id@) is None,
        },
{
    let blocks = extract_agent_block_ranges(toml);
    let mut k: usize = 0;
    while k < blocks.len()
        invariant
            k <= blocks.len(),
            block_triples(blocks@) == agent_ranges(toml@),
            block_bounds(toml@, agent_id@) == first_block(agent_ranges(toml@), agent_id@, k as int),
        decreases blocks.len() - k,
    {
        proof {
            assert(block_triples(blocks@)[k as int] == (blocks@[k as int].agent_id@, blocks@[k as int].start as int, blocks@[k as int].end as int));
        }
        if str_eq(blocks[k].agent_id.as_str(), agent_id) {
            return Some((blocks[k].start, blocks[k].end));
        }
        k += 1;
    }
    None
}

/// The quoted value a line assigns to `field` (`field = "value"`), if it
/// assigns one.
pub open spec fn field_value(line: Seq<char>, field: Seq<char>) -> Option<Seq<char>> {
    let t = trim_seq(line);
    if starts_with_seq(t, field) {
        let rest = trim_start_seq(t.subrange(field.len() as int, t.len() as int));
        if rest.len() > 0 && rest[0] == '=' {
            let v = trim_seq(rest.subrange(1, rest.len() as int));
            if v.len() >= 2 && v[0] == '"' && v.last() == '"' {
                Some(v.subrange(1, v.len() - 1))
            } else {
                None
            }
        } else {
            None
        }
    } else {
        None
    }
}

/// The value assigned to `field` by the first line from `k` on that
/// assigns one.
pub open spec fn first_field_value(ls: Seq<Seq<char>>, field: Seq<char>, k: int) -> Option<Seq<char>>
    decreases ls.len() - k,
{
    if k < 0 || k >= ls.len() {
        None
    } else {
        match field_value(ls[k], field) {
            Some(v) => Some(v),
            None => first_field_value(ls, field, k + 1),
        }
    }
}

/// The quoted value of `field` in the agent's block, if any.
pub open spec fn agent_field(s: Seq<char>, agent: Seq<char>, field: Seq<char>) -> Option<Seq<char>> {
    match block_bounds(s, agent) {
        Some((a, b)) => first_field_value(lines_of(s.subrange(a, b)), field, 0),
        None => None,
    }
}

fn trim_start_chars(v: &Vec<char>) -> (r: Vec<char>)
    ensures
        r@ == trim_start_seq(v@),
{
    let mut a: usize = 0;
    while a < v.len() && white_space(v[a])
        invariant
            a <= v.len(),
            forall|j: int| 0 <= j < a ==> is_white_space(v@[j]),
        decreases v.len() - a,
    {
        a += 1;
    }
    proof {
        lemma_leading_ws_exact(v@, a as int);
    }
    slice_chars(v, a, v.len())
}

proof fn lemma_leading_ws_exact(s: Seq<char>, i: int)
    requires
        0 <= i <= s.len(),
        forall|j: int| 0 <= j < i ==> is_white_space(s[j]),
        i == s.len() || !is_white_space(s[i]),
    ensures
        leading_ws_len(s) == i,
    decreases i,
{
    crate::text::lemma_leading_ws_public(s, i);
}

fn field_value_exec(line: &Vec<char>, field: &Vec<char>) -> (r: Option<Vec<char>>)
    ensures
        match r {
            Some(v) => field_value(line@, field@) == Some(v@),
            None => field_value(line@, field@) is None,
        },
{
    let t = trim_chars(line);
    if field.len() > t.len() || !occurs_at_exec(&t, field, 0) {
        return None;
    }
    let after = slice_chars(&t, field.len(), t.len());
    let rest = trim_start_chars(&after);
    if rest.len() == 0 || rest[0] != '=' {
        return None;
    }
    let tail = slice_chars(&rest, 1, rest.len());
    let value = trim_chars(&tail);
    if value.len() >= 2 && value[0] == '"' && value[value.len() - 1] == '"' {
        Some(slice_chars(&value, 1, value.len() - 1))
    } else {
        None
    }
}

/// Reads the quoted value of `field` in the agent's block: the first line
/// of the block of the form `field = "value"` gives it.
pub fn read_agent_field(toml: &str, agent_id: &str, field: &str) -> (r: Option<String>)
    ensures
        match r {
            Some(v) => agent_field(toml@, agent_id@, field@) == Some(v@),
            None => agent_field(toml@, agent_id@, field@) is None,
        },
{
    let bounds = get_agent_block_bounds(toml, agent_id);
    let (a, b) = match bounds {
        Some(p) => p,
        None => return None,
    };
    let v = str_chars(toml);
    proof {
        lemma_block_bounds_within(toml@, agent_id@);
    }
    let block = slice_chars(&v, a, b);
    let ls = split_lines(&block);
    let f = str_chars(field);
    let ghost lv = ls@.map_values(|l: Vec<char>| l@);
    let mut k: usize = 0;
    while k < ls.len()
        invariant
            k <= ls.len(),
            f@ == field@,
            lv == ls@.map_values(|l: Vec<char>| l@),
            lv == lines_of(toml@.subrange(a as int, b as int)),
            agent_field(toml@, agent_id@, field@) == first_field_value(lv, field@, k as int),
        decreases ls.len() - k,
    {
        match field_value_exec(&ls[k], &f) {
            Some(val) => {
                return Some(chars_to_string(val.as_slice()));
            },
            None => {},
        }
        k += 1;
    }
    None
}

/// UTF-8 length of a character, in bytes.
pub open spec fn utf8_len(c: char) -> nat {
    let u = c as u32;
    if u < 0x80 { 1 } else if u < 0x800 { 2 } else if u < 0x10000 { 3 } else { 4 }
}

/// UTF-8 length of a text, in bytes.
pub open spec fn utf8_len_seq(s: Seq<char>) -> nat
    decreases s.len(),
{
    if s.len() == 0 { 0 } else { utf8_len_seq(s.drop_last()) + utf8_len(s.last()) }
}

/// `n` spaces.
pub open spec fn spaces(n: nat) -> Seq<char> {
    Seq::new(n, |i: int| ' ')
}

/// The indentation a rewritten line keeps: one space per byte of the
/// original line's leading white space.
pub open spec fn indent_of(line: Seq<char>) -> Seq<char> {
    spaces(utf8_len_seq(line.subrange(0, leading_ws_len(line))))
}

/// The line sets `field` (`field = ...` or `field=...`).
pub open spec fn is_field_line(line: Seq<char>, field: Seq<char>) -> bool {
    let t = trim_start_seq(line);
    starts_with_seq(t, field + " "@) || starts_with_seq(t, field + "="@)
}

/// The first line from `k` on that sets `field`.
pub open spec fn first_field_line(ls: Seq<Seq<char>>, field: Seq<char>, k: int) -> Option<int>
    decreases ls.len() - k,
{
    if k < 0 || k >= ls.len() {
        None
    } else if is_field_line(ls[k], field) {
        Some(k)
    } else {
        first_field_line(ls, field, k + 1)
    }
}

/// The lines without the blank lines at their end.
pub open spec fn drop_trailing_blank(ls: Seq<Seq<char>>) -> Seq<Seq<char>>
    decreases ls.len(),
{
    if ls.len() > 0 && trim_seq(ls.last()).len() == 0 {
        drop_trailing_blank(ls.drop_last())
    } else {
        ls
    }
}

/// `field = "value"`.
pub open spec fn assignment(field: Seq<char>, value: Seq<char>) -> Seq<char> {
    field + " = \""@ + value + "\""@
}

/// The block with `field` set to `value`: the first line setting it is
/// rewritten in place (keeping its indentation); otherwise the assignment
/// is appended after the block's last non-blank line.
pub open spec fn updated_block(block: Seq<char>, field: Seq<char>, value: Seq<char>) -> Seq<char> {
    let ls = lines_of(block);
    let new_lines = match first_field_line(ls, field, 0) {
        Some(k) => ls.update(k, indent_of(ls[k]) + assignment(field, value)),
        None => drop_trailing_blank(ls).push(assignment(field, value)),
    };
    join_lines(new_lines) + if block.len() > 0 && block.last() == '\n' { "\n"@ } else { Seq::empty() }
}

/// The text with `field` of the agent's block set to `value`; unchanged
/// when the text has no block for the agent.
pub open spec fn agent_field_updated(s: Seq<char>, agent: Seq<char>, field: Seq<char>, value: Seq<char>) -> Seq<char> {
    match block_bounds(s, agent) {
        Some((a, b)) => s.subrange(0, a) + updated_block(s.subrange(a, b), field, value) + s.subrange(b, s.len() as int),
        None => s,
    }
}

fn utf8_len_exec(c: char) -> (n: usize)
    ensures
        n == utf8_len(c),
{
    let u = c as u32;
    if u < 0x80 { 1 } else if u < 0x800 { 2 } else if u < 0x10000 { 3 } else { 4 }
}

pub(crate) fn indent_exec(line: &Vec<char>) -> (r: Vec<char>)
    ensures
        r@ == indent_of(line@),
{
    let mut a: usize = 0;
    while a < line.len() && white_space(line[a])
        invariant
            a <= line.len(),
            forall|j: int| 0 <= j < a ==> is_white_space(line@[j]),
        decreases line.len() - a,
    {
        a += 1;
    }
    proof {
        lemma_leading_ws_exact(line@, a as int);
    }
    let mut out: Vec<char> = Vec::new();
    let mut i: usize = 0;
    while i < a
        invariant
            i <= a <= line.len(),
            out@ == spaces(utf8_len_seq(line@.subrange(0, i as int))),
        decreases a - i,
    {
        let n = utf8_len_exec(line[i]);
        let ghost before = out@;
        let mut k: usize = 0;
        while k < n
            invariant
                k <= n,
                out@ == before + spaces(k as nat),
            decreases n - k,
        {
            out.push(' ');
            proof {
                assert(out@ =~= before + spaces((k + 1) as nat));
            }
            k += 1;
        }
        proof {
            assert(line@.subrange(0, i + 1).drop_last() =~= line@.subrange(0, i as int));
            assert(line@.subrange(0, i + 1).last() == line@[i as int]);
            assert(out@ =~= spaces(utf8_len_seq(line@.subrange(0, i + 1))));
        }
        i += 1;
    }
    out
}

fn is_field_line_exec(line: &Vec<char>, field: &Vec<char>) -> (r: bool)
    ensures
        r == is_field_line(line@, field@),
{
    let t = trim_start_chars(line);
    let mut a = field.clone();
    a.push(' ');
    let mut b = field.clone();
    b.push('=');
    proof {
        reveal_strlit(" ");
        reveal_strlit("=");
        assert(a@ =~= field@ + " "@);
        assert(b@ =~= field@ + "="@);
    }
    (a.len() <= t.len() && occurs_at_exec(&t, &a, 0)) || (b.len() <= t.len() && occurs_at_exec(&t, &b, 0))
}

fn assignment_exec(field: &str, value: &str) -> (r: Vec<char>)
    ensures
        r@ == assignment(field@, value@),
{
    let mut out: Vec<char> = Vec::new();
    push_str(&mut out, field);
    push_str(&mut out, " = \"");
    push_str(&mut out, value);
    push_str(&mut out, "\"");
    out
}

fn drop_trailing_blank_exec(ls: &mut Vec<Vec<char>>)
    ensures
        final(ls)@.map_values(|l: Vec<char>| l@) == drop_trailing_blank(old(ls)@.map_values(|l: Vec<char>| l@)),
{
    loop
        invariant
            drop_trailing_blank(ls@.map_values(|l: Vec<char>| l@)) == drop_trailing_blank(old(ls)@.map_values(|l: Vec<char>| l@)),
        ensures
            ls@.map_values(|l: Vec<char>| l@) == drop_trailing_blank(old(ls)@.map_values(|l: Vec<char>| l@)),
        decreases ls@.len(),
    {
        if ls.len() == 0 {
            break;
        }
        let last_blank = trim_chars(&ls[ls.len() - 1]).len() == 0;
        if !last_blank {
            break;
        }
        let ghost before = ls@.map_values(|l: Vec<char>| l@);
        ls.pop();
        proof {
            assert(ls@.map_values(|l: Vec<char>| l@) =~= before.drop_last());
        }
    }
}

fn updated_block_exec(block: &Vec<char>, field: &str, value: &str) -> (r: Vec<char>)
    ensures
        r@ == updated_block(block@, field@, value@),
{
    let mut ls = split_lines(block);
    let f = str_chars(field);
    let ghost lv = ls@.map_values(|l: Vec<char>| l@);
    let mut k: usize = 0;
    let mut found: Option<usize> = None;
    while k < ls.len()
        invariant_except_break
            found is None,
        invariant
            k <= ls.len(),
            f@ == field@,
            lv == ls@.map_values(|l: Vec<char>| l@),
            first_field_line(lv, field@, 0) == first_field_line(lv, field@, k as int),
        ensures
            lv == ls@.map_values(|l: Vec<char>| l@),
            match found {
                Some(j) => first_field_line(lv, field@, 0) == Some(j as int) && j < ls@.len(),
                None => first_field_line(lv, field@, 0) is None,
            },
        decreases ls.len() - k,
    {
        if is_field_line_exec(&ls[k], &f) {
            found = Some(k);
            break;
        }
        k += 1;
    }
    let assign = assignment_exec(field, value);
    match found {
        Some(j) => {
            let mut line = indent_exec(&ls[j]);
            let mut q: usize = 0;
            while q < assign.len()
                invariant
                    q <= assign.len(),
                    line@ == indent_of(lv[j as int]) + assign@.subrange(0, q as int),
                    j < lv.len(),
                    lv == ls@.map_values(|l: Vec<char>| l@),
                decreases assign.len() - q,
            {
                line.push(assign[q]);
                proof {
                    assert(assign@.subrange(0, q + 1) =~= assign@.subrange(0, q as int).push(assign@[q as int]));
                }
                q += 1;
            }
            proof {
                assert(assign@.subrange(0, assign@.len() as int) =~= assign@);
            }
            let ghost lin = line@;
            ls.set(j, line);
            proof {
                assert(ls@.map_values(|l: Vec<char>| l@) =~= lv.update(j as int, lin));
            }
        },
        None => {
            drop_trailing_blank_exec(&mut ls);
            let ghost before = ls@.map_values(|l: Vec<char>| l@);
            ls.push(assign);
            proof {
                assert(ls@.map_values(|l: Vec<char>| l@) =~= before.push(assignment(field@, value@)));
            }
        },
    }
    let mut out = join_lines_exec(&ls);
    if block.len() > 0 && block[block.len() - 1] == '\n' {
        out.push('\n');
        proof {
            reveal_strlit("\n");
        }
    }
    proof {
        if !(block@.len() > 0 && block@.last() == '\n') {
            assert(out@ =~= out@ + Seq::<char>::empty());
        }
    }
    out
}

/// Sets `field` of the agent's block to `value`, leaving the rest of the
/// text as it was; a text without a block for the agent is returned
/// unchanged.
pub fn update_agent_field(toml: &str, agent_id: &str, field: &str, value: &str) -> (r: String)
    ensures
        r@ == agent_field_updated(toml@, agent_id@, field@, value@),
{
    let v = str_chars(toml);
    let (a, b) = match get_agent_block_bounds(toml, agent_id) {
        Some(p) => p,
        None => return owned(toml),
    };
    proof {
        lemma_block_bounds_within(toml@, agent_id@);
    }
    let block = slice_chars(&v, a, b);
    let updated = updated_block_exec(&block, field, value);
    let mut out = slice_chars(&v, 0, a);
    let mut i: usize = 0;
    while i < updated.len()
        invariant
            i <= updated.len(),
            a <= b <= v@.len(),
            out@ == v@.subrange(0, a as int) + updated@.subrange(0, i as int),
        decreases updated.len() - i,
    {
        out.push(updated[i]);
        proof {
            assert(updated@.subrange(0, i + 1) =~= updated@.subrange(0, i as int).push(updated@[i as int]));
        }
        i += 1;
    }
    let mut j: usize = b;
    while j < v.len()
        invariant
            b <= j <= v@.len(),
            out@ == v@.subrange(0, a as int) + updated@ + v@.subrange(b as int, j as int),
        decreases v.len() - j,
    {
        out.push(v[j]);
        proof {
            assert(v@.subrange(b as int, j + 1) =~= v@.subrange(b as int, j as int).push(v@[j as int]));
        }
        j += 1;
    }
    proof {
        assert(updated@.subrange(0, updated@.len() as int) =~= updated@);
    }
    chars_to_string(out.as_slice())
}

/// Law: editing one agent's field leaves everything outside that agent's
/// block as it was, and a text with no block for the agent is not touched.
pub proof fn law_update_stays_inside_block(s: Seq<char>, agent: Seq<char>, field: Seq<char>, value: Seq<char>)
    ensures
        match block_bounds(s, agent) {
            Some((a, b)) => {
                let r = agent_field_updated(s, agent, field, value);
                &&& r.subrange(0, a) == s.subrange(0, a)
                &&& r.subrange(r.len() - (s.len() - b), r.len() as int) == s.subrange(b, s.len() as int)
            },
            None => agent_field_updated(s, agent, field, value) == s,
        },
{
    lemma_block_bounds_within(s, agent);
    match block_bounds(s, agent) {
        Some((a, b)) => {
            let r = agent_field_updated(s, agent, field, value);
            let mid = updated_block(s.subrange(a, b), field, value);
            assert(r =~= s.subrange(0, a) + mid + s.subrange(b, s.len() as int));
            assert(r.subrange(0, a) =~= s.subrange(0, a));
            assert(r.subrange(r.len() - (s.len() - b), r.len() as int) =~= s.subrange(b, s.len() as int));
        },
        None => {},
    }
}

/// What the OpenCode route governor reads for one agent.
pub struct AgentRouteInputs {
    /// `provider` in the route contract, if set.
    pub current_provider: Option<String>,
    /// `model_profile` in the route contract, if set.
    pub current_profile: Option<String>,
    /// The model-control surface's recommended provider, if any.
    pub recommended_provider: Option<String>,
    /// The recommended model profile, if any.
    pub recommended_profile: Option<String>,
    /// What the governor applied last time, if anything.
    pub previously_applied_provider: Option<String>,
    pub previously_applied_profile: Option<String>,
}

/// The governor's verdict for one agent.
pub struct AgentRouteDecision {
    pub status: GovernorStatus,
    pub governor_controlled: bool,
    /// The route in force after the decision.
    pub provider: String,
    pub model_profile: String,
    pub recommended_provider: String,
    pub recommended_profile: String,
    /// What the governor now stands behind.
    pub applied_provider: Option<String>,
    pub applied_profile: Option<String>,
}

/// The text of an optional value, or the default.
pub open spec fn value_or(v: Option<String>, d: Seq<char>) -> Seq<char> {
    match v {
        Some(s) => s@,
        None => d,
    }
}

/// The optional value as text.
pub open spec fn opt_view(v: Option<String>) -> Option<Seq<char>> {
    match v {
        Some(s) => Some(s@),
        None => None,
    }
}

/// The text of an optional value, or the default.
pub open spec fn text_or_else(v: Option<Seq<char>>, d: Seq<char>) -> Seq<char> {
    match v {
        Some(s) => s,
        None => d,
    }
}

/// The verdict owed for one agent, from its current route (`provider`,
/// `model_profile`), the recommendation and what the governor applied last
/// time. Its route is under governor control when its provider is `auto`
/// or is exactly what the governor applied last time; a route off the
/// recommendation is then moved onto it, while a manual route is left alone.
pub open spec fn route_decision_from(
    current_provider: Option<Seq<char>>,
    current_profile: Option<Seq<char>>,
    recommended_provider: Option<Seq<char>>,
    recommended_profile: Option<Seq<char>>,
    applied_provider: Option<Seq<char>>,
    applied_profile: Option<Seq<char>>,
    d: AgentRouteDecision,
) -> bool {
    let cp = text_or_else(current_provider, "auto"@);
    let cf = text_or_else(current_profile, ""@);
    let rp = text_or_else(recommended_provider, "auto"@);
    let rf = text_or_else(recommended_profile, cf);
    let controlled = cp == "auto"@ || (applied_provider == Some(cp) && applied_profile == Some(cf));
    let differs = cp != rp || cf != rf;
    &&& d.governor_controlled == controlled
    &&& d.recommended_provider@ == rp
    &&& d.recommended_profile@ == rf
    &&& if !controlled && differs {
        &&& d.status == GovernorStatus::ManualOverrideRespected
        &&& d.provider@ == cp && d.model_profile@ == cf
        &&& opt_view(d.applied_provider) == applied_provider
        &&& opt_view(d.applied_profile) == applied_profile
    } else if differs {
        &&& d.status == GovernorStatus::Applied
        &&& d.provider@ == rp && d.model_profile@ == rf
        &&& opt_view(d.applied_provider) == Some(rp) && opt_view(d.applied_profile) == Some(rf)
    } else {
        &&& d.status == GovernorStatus::Unchanged
        &&& d.provider@ == cp && d.model_profile@ == cf
        &&& opt_view(d.applied_provider) == Some(cp) && opt_view(d.applied_profile) == Some(cf)
    }
}

/// The verdict owed for one agent's inputs.
pub open spec fn route_decision_of(i: AgentRouteInputs, d: AgentRouteDecision) -> bool {
    route_decision_from(
        opt_view(i.current_provider),
        opt_view(i.current_profile),
        opt_view(i.recommended_provider),
        opt_view(i.recommended_profile),
        opt_view(i.previously_applied_provider),
        opt_view(i.previously_applied_profile),
        d,
    )
}

fn value_or_exec(v: &Option<String>, d: &str) -> (r: String)
    ensures
        r@ == value_or(*v, d@),
{
    match v {
        Some(s) => owned(s.as_str()),
        None => owned(d),
    }
}

fn opt_eq_text(v: &Option<String>, t: &str) -> (r: bool)
    ensures
        r == (opt_view(*v) == Some(t@)),
{
    match v {
        Some(s) => str_eq(s.as_str(), t),
        None => false,
    }
}

fn opt_copy(v: &Option<String>) -> (r: Option<String>)
    ensures
        opt_view(r) == opt_view(*v),
{
    match v {
        Some(s) => Some(owned(s.as_str())),
        None => None,
    }
}

/// Decides the OpenCode route governor's action for one agent.
pub fn decide_agent_route(i: &AgentRouteInputs) -> (d: AgentRouteDecision)
    ensures
        route_decision_of(*i, d),
{
    let cp = value_or_exec(&i.current_provider, "auto");
    let cf = value_or_exec(&i.current_profile, "");
    let rp = value_or_exec(&i.recommended_provider, "auto");
    let rf = match &i.recommended_profile {
        Some(s) => owned(s.as_str()),
        None => owned(cf.as_str()),
    };
    let controlled = str_eq(cp.as_str(), "auto") || (opt_eq_text(&i.previously_applied_provider, cp.as_str())
        && opt_eq_text(&i.previously_applied_profile, cf.as_str()));
    let differs = !str_eq(cp.as_str(), rp.as_str()) || !str_eq(cf.as_str(), rf.as_str());
    if !controlled && differs {
        AgentRouteDecision {
            status: GovernorStatus::ManualOverrideRespected,
            governor_controlled: controlled,
            provider: cp,
            model_profile: cf,
            recommended_provider: rp,
            recommended_profile: rf,
            applied_provider: opt_copy(&i.previously_applied_provider),
            applied_profile: opt_copy(&i.previously_applied_profile),
        }
    } else if differs {
        let ap = owned(rp.as_str());
        let af = owned(rf.as_str());
        let ap2 = owned(rp.as_str());
        let af2 = owned(rf.as_str());
        AgentRouteDecision {
            status: GovernorStatus::Applied,
            governor_controlled: controlled,
            provider: ap,
            model_profile: af,
            recommended_provider: rp,
            recommended_profile: rf,
            applied_provider: Some(ap2),
            applied_profile: Some(af2),
        }
    } else {
        let ap = owned(cp.as_str());
        let af = owned(cf.as_str());
        AgentRouteDecision {
            status: GovernorStatus::Unchanged,
            governor_controlled: controlled,
            provider: cp,
            model_profile: cf,
            recommended_provider: rp,
            recommended_profile: rf,
            applied_provider: Some(ap),
            applied_profile: Some(af),
        }
    }
}

/// Reads one agent's route from the contract text, decides, and writes the
/// recommended route into the text when the decision applies it.
pub fn govern_agent_route(
    routes_toml: &str,
    agent_id: &str,
    recommended_provider: &Option<String>,
    recommended_profile: &Option<String>,
    previously_applied_provider: &Option<String>,
    previously_applied_profile: &Option<String>,
) -> (r: (AgentRouteDecision, String))
    ensures
        route_decision_from(
            agent_field(routes_toml@, agent_id@, "provider"@),
            agent_field(routes_toml@, agent_id@, "model_profile"@),
            opt_view(*recommended_provider),
            opt_view(*recommended_profile),
            opt_view(*previously_applied_provider),
            opt_view(*previously_applied_profile),
            r.0,
        ),
        r.1@ == if r.0.status == GovernorStatus::Applied {
            agent_field_updated(
                agent_field_updated(routes_toml@, agent_id@, "provider"@, r.0.provider@),
                agent_id@,
                "model_profile"@,
                r.0.model_profile@,
            )
        } else {
            routes_toml@
        },
{
    let current_provider = read_agent_field(routes_toml, agent_id, "provider");
    let current_profile = read_agent_field(routes_toml, agent_id, "model_profile");
    let inputs = AgentRouteInputs {
        current_provider,
        current_profile,
        recommended_provider: opt_copy(recommended_provider),
        recommended_profile: opt_copy(recommended_profile),
        previously_applied_provider: opt_copy(previously_applied_provider),
        previously_applied_profile: opt_copy(previously_applied_profile),
    };
    let d = decide_agent_route(&inputs);
    if d.status == GovernorStatus::Applied {
        let t1 = update_agent_field(routes_toml, agent_id, "provider", d.provider.as_str());
        let t2 = update_agent_field(t1.as_str(), agent_id, "model_profile", d.model_profile.as_str());
        (d, t2)
    } else {
        (d, owned(routes_toml))
    }
}

} // verus!
