//! What reading an agent's field gives back after the field was written.

use vstd::prelude::*;
use crate::agent_routes::{
    agent_ranges, block_bounds, find_from, first_block, lemma_find_from_bounds, lemma_markers_sorted,
    marker_at, markers_upto, agent_field, agent_field_updated, lemma_block_bounds_within,
    assignment, drop_trailing_blank, field_value, first_field_line, first_field_value, indent_of,
    is_field_line, spaces, updated_block,
};
use crate::lines::{
    join_lines, lemma_join_ends_with_last, lemma_lines_have_no_newline, lemma_lines_of_join,
    lemma_pieces_nonempty, lines_of, newline_pieces, no_newline, strip_cr, trim_start_seq,
};
use crate::text::{
    is_white_space, occurs_at, contains_seq, lemma_leading_ws_public, lemma_trim_drop_trailing_ws, lemma_trim_padded,
    starts_with_seq, trim_seq,
};

verus! {

/// A field name that the writer and the reader both recognise: one line,
/// not starting with white space.
pub open spec fn plain_field(f: Seq<char>) -> bool {
    no_newline(f) && (f.len() > 0 ==> !is_white_space(f[0]))
}

/// Every line of the block that the reader takes as assigning `f` is a
/// line the writer takes as setting `f`.
pub open spec fn reader_agrees_with_writer(block: Seq<char>, f: Seq<char>) -> bool {
    forall|j: int| 0 <= j < lines_of(block).len() && #[trigger] field_value(lines_of(block)[j], f) is Some
        ==> is_field_line(lines_of(block)[j], f)
}

proof fn lemma_first_field_line(ls: Seq<Seq<char>>, f: Seq<char>, i: int)
    requires
        0 <= i <= ls.len(),
    ensures
        match first_field_line(ls, f, i) {
            Some(k) => i <= k < ls.len() && is_field_line(ls[k], f)
                && forall|j: int| i <= j < k ==> !is_field_line(#[trigger] ls[j], f),
            None => forall|j: int| i <= j < ls.len() ==> !is_field_line(#[trigger] ls[j], f),
        },
    decreases ls.len() - i,
{
    if i < ls.len() && !is_field_line(ls[i], f) {
        lemma_first_field_line(ls, f, i + 1);
    }
}

proof fn lemma_drop_trailing_blank(ls: Seq<Seq<char>>)
    ensures
        drop_trailing_blank(ls).len() <= ls.len(),
        forall|i: int| 0 <= i < drop_trailing_blank(ls).len() ==> #[trigger] drop_trailing_blank(ls)[i] == ls[i],
    decreases ls.len(),
{
    if ls.len() > 0 && trim_seq(ls.last()).len() == 0 {
        lemma_drop_trailing_blank(ls.drop_last());
    }
}

proof fn lemma_spaces_are_white(n: nat)
    ensures
        forall|i: int| 0 <= i < spaces(n).len() ==> is_white_space(#[trigger] spaces(n)[i]),
{
}

/// The line written for `f` reads back as `v`.
proof fn lemma_written_line_reads_back(ind: Seq<char>, f: Seq<char>, v: Seq<char>)
    requires
        forall|i: int| 0 <= i < ind.len() ==> #[trigger] ind[i] == ' ',
        plain_field(f),
    ensures
        field_value(ind + assignment(f, v), f) == Some(v),
{
    reveal_strlit(" = \"");
    reveal_strlit("\"");
    let quoted = seq!['"'] + v + seq!['"'];
    let tail = seq!['=', ' '] + quoted;
    let line = ind + assignment(f, v);
    assert forall|i: int| 0 <= i < ind.len() implies is_white_space(#[trigger] ind[i]) by {
        assert(ind[i] == ' ');
    }
    let t = trim_seq(line);
    if f.len() > 0 {
        let body = f + seq![' '] + tail;
        assert(line =~= ind + body + Seq::<char>::empty());
        assert(body[0] == f[0]);
        assert(body[body.len() - 1] == '"');
        lemma_trim_padded(ind, body, Seq::empty());
        assert(t == body);
        assert(t.subrange(0, f.len() as int) =~= f);
        assert(t.subrange(f.len() as int, t.len() as int) =~= seq![' '] + tail);
    } else {
        let pre = ind + seq![' '];
        assert forall|i: int| 0 <= i < pre.len() implies is_white_space(#[trigger] pre[i]) by {
            if i < ind.len() {
                assert(pre[i] == ind[i]);
            }
        }
        assert(line =~= pre + tail + Seq::<char>::empty());
        lemma_trim_padded(pre, tail, Seq::empty());
        assert(t == tail);
        assert(t.subrange(0, 0) =~= f);
    }
    let after = t.subrange(f.len() as int, t.len() as int);
    lemma_leading_ws_public(after, if f.len() > 0 { 1 } else { 0 });
    let rest = trim_start_seq(after);
    assert(rest =~= tail);
    let inner = rest.subrange(1, rest.len() as int);
    assert(inner =~= seq![' '] + quoted + Seq::<char>::empty());
    lemma_trim_padded(seq![' '], quoted, Seq::empty());
    let q = trim_seq(inner);
    assert(q == quoted);
    assert(q.subrange(1, q.len() - 1) =~= v);
}

/// A line reads the same once a final carriage return is dropped.
proof fn lemma_field_value_strip_cr(line: Seq<char>, f: Seq<char>)
    ensures
        field_value(strip_cr(line), f) == field_value(line, f),
{
    if line.len() > 0 && line.last() == '\r' {
        lemma_trim_drop_trailing_ws(line);
    }
}

proof fn lemma_first_field_value_at(lv: Seq<Seq<char>>, f: Seq<char>, i: int, k: int, v: Seq<char>)
    requires
        0 <= i <= k < lv.len(),
        field_value(lv[k], f) == Some(v),
        forall|j: int| 0 <= j < k ==> field_value(#[trigger] lv[j], f) is None,
    ensures
        first_field_value(lv, f, i) == Some(v),
    decreases k - i,
{
    if i < k {
        lemma_first_field_value_at(lv, f, i + 1, k, v);
    }
}

proof fn lemma_join_extend_last(ls: Seq<Seq<char>>, c: char)
    requires
        ls.len() >= 1,
    ensures
        join_lines(ls.update(ls.len() - 1, ls.last().push(c))) == join_lines(ls).push(c),
{
    reveal_strlit("\n");
    let ls2 = ls.update(ls.len() - 1, ls.last().push(c));
    if ls.len() >= 2 {
        assert(ls2.drop_last() =~= ls.drop_last());
        assert(join_lines(ls2) =~= join_lines(ls).push(c));
    }
}

/// Joining the newline pieces of a text gives the text back.
proof fn lemma_join_of_pieces(s: Seq<char>)
    ensures
        join_lines(newline_pieces(s)) == s,
    decreases s.len(),
{
    reveal_strlit("\n");
    if s.len() > 0 {
        let s1 = s.drop_last();
        lemma_join_of_pieces(s1);
        lemma_pieces_nonempty(s1);
        let prev = newline_pieces(s1);
        if s.last() == '\n' {
            let cur = prev.push(Seq::<char>::empty());
            assert(cur.drop_last() =~= prev);
            assert(join_lines(cur) =~= s);
        } else {
            lemma_join_extend_last(prev, s.last());
            assert(s1.push(s.last()) =~= s);
        }
    } else {
        assert(s =~= Seq::<char>::empty());
    }
}

/// Joined lines begin with the first line, and a newline follows it when
/// there are more lines.
proof fn lemma_join_prefix(ls: Seq<Seq<char>>)
    requires
        ls.len() >= 1,
    ensures
        join_lines(ls).len() >= ls[0].len(),
        join_lines(ls).subrange(0, ls[0].len() as int) == ls[0],
        ls.len() >= 2 ==> join_lines(ls).len() > ls[0].len() && join_lines(ls)[ls[0].len() as int] == '\n',
    decreases ls.len(),
{
    reveal_strlit("\n");
    if ls.len() >= 2 {
        let init = ls.drop_last();
        lemma_join_prefix(init);
        let j = join_lines(init) + "\n"@ + ls.last();
        assert(join_lines(ls) == j);
        assert(init[0] == ls[0]);
        assert(j.subrange(0, ls[0].len() as int) =~= join_lines(init).subrange(0, ls[0].len() as int));
        if init.len() == 1 {
            assert(join_lines(init) == ls[0]);
            assert(j[ls[0].len() as int] == '\n');
        } else {
            assert(j[ls[0].len() as int] == join_lines(init)[ls[0].len() as int]);
        }
    } else {
        assert(ls[0].subrange(0, ls[0].len() as int) =~= ls[0]);
    }
}

/// An occurrence of a one-line pattern in joined lines lies inside one
/// line; past the very start of the text, it is not at the start of the
/// first line.
proof fn lemma_occurrence_in_some_line(ls: Seq<Seq<char>>, pat: Seq<char>, p: int) -> (r: (int, int))
    requires
        ls.len() >= 1,
        pat.len() > 0,
        no_newline(pat),
        occurs_at(join_lines(ls), pat, p),
    ensures
        0 <= r.0 < ls.len(),
        occurs_at(ls[r.0], pat, r.1),
        p > 0 ==> r.0 > 0 || r.1 > 0,
    decreases ls.len(),
{
    reveal_strlit("\n");
    if ls.len() == 1 {
        (0, p)
    } else {
        let init = ls.drop_last();
        let j0 = join_lines(init);
        let l = j0.len() as int;
        let whole = j0 + "\n"@ + ls.last();
        assert(join_lines(ls) == whole);
        if p + pat.len() <= l {
            assert(whole.subrange(p, p + pat.len()) =~= j0.subrange(p, p + pat.len()));
            let r = lemma_occurrence_in_some_line(init, pat, p);
            assert(init[r.0] == ls[r.0]);
            r
        } else if p > l {
            let q = p - l - 1;
            assert(whole.subrange(p, p + pat.len()) =~= ls.last().subrange(q, q + pat.len()));
            ((ls.len() - 1) as int, q)
        } else {
            assert(whole[l] == '\n');
            assert(whole.subrange(p, p + pat.len())[l - p] == whole[l]);
            assert(pat[l - p] == '\n');
            assert(false);
            (0, 0)
        }
    }
}

/// An occurrence inside one line is an occurrence in the joined lines,
/// past the start unless it is at the start of the first line.
proof fn lemma_occurrence_in_join(ls: Seq<Seq<char>>, pat: Seq<char>, j: int, q: int) -> (p: int)
    requires
        0 <= j < ls.len(),
        occurs_at(ls[j], pat, q),
    ensures
        occurs_at(join_lines(ls), pat, p),
        j > 0 || q > 0 ==> p > 0,
    decreases ls.len(),
{
    reveal_strlit("\n");
    if ls.len() == 1 {
        q
    } else {
        let init = ls.drop_last();
        let j0 = join_lines(init);
        let whole = j0 + "\n"@ + ls.last();
        assert(join_lines(ls) == whole);
        if j == ls.len() - 1 {
            let p = j0.len() + 1 + q;
            assert(whole.subrange(p, p + pat.len()) =~= ls.last().subrange(q, q + pat.len()));
            p
        } else {
            assert(init[j] == ls[j]);
            let p = lemma_occurrence_in_join(init, pat, j, q);
            assert(whole.subrange(p, p + pat.len()) =~= j0.subrange(p, p + pat.len()));
            p
        }
    }
}

/// The lines of a text are prefixes of its newline pieces.
proof fn lemma_lines_are_piece_prefixes(s: Seq<char>)
    requires
        s.len() > 0,
    ensures
        lines_of(s).len() >= 1,
        lines_of(s).len() <= newline_pieces(s).len(),
        forall|j: int| 0 <= j < lines_of(s).len() ==> (#[trigger] lines_of(s)[j]).len() <= newline_pieces(s)[j].len()
            && lines_of(s)[j] == newline_pieces(s)[j].subrange(0, lines_of(s)[j].len() as int)
            && lines_of(s)[j] == strip_cr(newline_pieces(s)[j]),
{
    let p = newline_pieces(s);
    lemma_pieces_nonempty(s);
    if s.last() == '\n' {
        lemma_pieces_nonempty(s.drop_last());
        assert(p.len() >= 2);
    }
    let kept = if s.last() == '\n' { p.drop_last() } else { p };
    assert forall|j: int| 0 <= j < lines_of(s).len() implies (#[trigger] lines_of(s)[j]).len() <= p[j].len()
        && lines_of(s)[j] == p[j].subrange(0, lines_of(s)[j].len() as int)
        && lines_of(s)[j] == strip_cr(p[j]) by {
        assert(kept[j] == p[j]);
        let l = strip_cr(p[j]);
        assert(l =~= p[j].subrange(0, l.len() as int));
    }
}

/// A text whose trailing white space is all of it starts with white space.
proof fn lemma_all_trailing_ws(x: Seq<char>)
    requires
        x.len() > 0,
        crate::text::trailing_ws(x) == x.len(),
    ensures
        is_white_space(x[0]),
    decreases x.len(),
{
    if x.len() > 1 {
        assert(is_white_space(x.last()));
        lemma_all_trailing_ws(x.drop_last());
        assert(x.drop_last()[0] == x[0]);
    }
}

/// A line that starts with a visible character is not blank.
proof fn lemma_not_blank(x: Seq<char>)
    requires
        x.len() > 0,
        !is_white_space(x[0]),
    ensures
        trim_seq(x).len() > 0,
{
    if crate::text::trailing_ws(x) == x.len() {
        lemma_all_trailing_ws(x);
    }
    crate::text::lemma_ws_bounds(x);
}

proof fn lemma_drop_trailing_blank_keeps_first(ls: Seq<Seq<char>>)
    requires
        ls.len() >= 1,
        trim_seq(ls[0]).len() > 0,
    ensures
        drop_trailing_blank(ls).len() >= 1,
    decreases ls.len(),
{
    if ls.len() > 1 && trim_seq(ls.last()).len() == 0 {
        assert(ls.drop_last()[0] == ls[0]);
        lemma_drop_trailing_blank_keeps_first(ls.drop_last());
    }
}

/// The agent table header text.
pub open spec fn header_text() -> Seq<char> {
    "[agents."@
}

/// The written line holds the header text only where the field name or
/// the value does.
proof fn lemma_written_line_no_header(ind: Seq<char>, f: Seq<char>, v: Seq<char>, q: int)
    requires
        forall|i: int| 0 <= i < ind.len() ==> #[trigger] ind[i] == ' ',
        !contains_seq(f, header_text()),
        !contains_seq(v, header_text()),
    ensures
        !occurs_at(ind + assignment(f, v), header_text(), q),
{
    reveal_strlit("[agents.");
    reveal_strlit(" = \"");
    reveal_strlit("\"");
    let pat = header_text();
    let w = ind + assignment(f, v);
    let i0 = ind.len() as int;
    let f0 = i0 + f.len();
    let v0 = f0 + 4;
    let e0 = v0 + v.len();
    if occurs_at(w, pat, q) {
        let win = w.subrange(q, q + 8);
        assert(win == pat);
        assert forall|t: int| 0 <= t < 8 implies win[t] != ' ' && win[t] != '=' && win[t] != '"' by {
            assert(win[t] == pat[t]);
        }
        assert(win[0] == '[');
        if q < i0 {
            assert(w[q] == ind[q]);
            assert(win[0] == w[q]);
        } else if q < f0 {
            if q + 8 > f0 {
                assert(w[f0] == ' ');
                assert(win[f0 - q] == w[f0]);
            } else {
                assert(f.subrange(q - i0, q - i0 + 8) =~= win);
                assert(occurs_at(f, pat, q - i0));
            }
        } else if q < v0 {
            assert(win[0] == w[q]);
            assert(w[q] == ' ' || w[q] == '=' || w[q] == '"');
        } else if q < e0 {
            if q + 8 > e0 {
                assert(w[e0] == '"');
                assert(win[e0 - q] == w[e0]);
            } else {
                assert(v.subrange(q - v0, q - v0 + 8) =~= win);
                assert(occurs_at(v, pat, q - v0));
            }
        } else {
            assert(win[0] == w[q]);
            assert(w[q] == '"');
        }
    }
}

/// The rewritten block keeps the header line up to its closing bracket and
/// holds the header text nowhere else, when the block held it only at its
/// start and neither the field name nor the value holds it.
proof fn lemma_updated_block_keeps_header(block: Seq<char>, f: Seq<char>, v: Seq<char>, h: int)
    requires
        occurs_at(block, header_text(), 0),
        forall|p: int| 0 < p ==> !occurs_at(block, header_text(), p),
        8 <= h < block.len(),
        block[h] == ']',
        no_newline(block.subrange(0, h)),
        plain_field(f),
        no_newline(v),
        !contains_seq(f, header_text()),
        !contains_seq(v, header_text()),
    ensures
        updated_block(block, f, v).len() > h,
        forall|x: int| 0 <= x <= h ==> #[trigger] updated_block(block, f, v)[x] == block[x],
        forall|p: int| 0 < p ==> !occurs_at(updated_block(block, f, v), header_text(), p),
{
    reveal_strlit(" ");
    reveal_strlit("=");
    reveal_strlit("[agents.");
    reveal_strlit(" = \"");
    reveal_strlit("\"");
    reveal_strlit("\n");
    let pat = header_text();
    let ls = lines_of(block);
    let pieces = newline_pieces(block);
    lemma_lines_are_piece_prefixes(block);
    lemma_join_of_pieces(block);
    lemma_pieces_nonempty(block);
    lemma_join_prefix(pieces);
    let p0 = pieces[0];
    assert(p0.len() > h) by {
        if p0.len() <= h {
            if pieces.len() >= 2 {
                assert(block[p0.len() as int] == '\n');
                if p0.len() < h {
                    assert(block.subrange(0, h)[p0.len() as int] == block[p0.len() as int]);
                }
            } else {
                assert(join_lines(pieces) == p0);
            }
        }
    }
    let l0 = ls[0];
    assert(l0 == strip_cr(p0));
    assert(forall|x: int| 0 <= x < p0.len() ==> #[trigger] p0[x] == block[x]) by {
        assert forall|x: int| 0 <= x < p0.len() implies #[trigger] p0[x] == block[x] by {
            assert(block.subrange(0, p0.len() as int)[x] == block[x]);
        }
    }
    assert(l0.len() > h) by {
        if p0.len() > 0 && p0.last() == '\r' && p0.len() - 1 == h {
            assert(p0[h] == block[h]);
        }
    }
    assert forall|x: int| 0 <= x < l0.len() implies #[trigger] l0[x] == block[x] by {
        assert(l0[x] == p0[x]);
    }
    // the header line is not a field line
    assert forall|x: int| 0 <= x < 8 implies #[trigger] l0[x] == pat[x] by {
        assert(block.subrange(0, 8)[x] == block[x]);
    }
    lemma_leading_ws_public(l0, 0);
    assert(trim_start_seq(l0) =~= l0);
    assert(!is_field_line(l0, f)) by {
        if f.len() >= 8 {
            if starts_with_seq(l0, f + " "@) || starts_with_seq(l0, f + "="@) {
                assert(f.subrange(0, 8) =~= pat) by {
                    assert forall|x: int| 0 <= x < 8 implies f.subrange(0, 8)[x] == pat[x] by {
                        let g = if starts_with_seq(l0, f + " "@) { f + " "@ } else { f + "="@ };
                        assert(l0.subrange(0, g.len() as int)[x] == l0[x]);
                        assert(g[x] == f[x]);
                    }
                }
                assert(occurs_at(f, pat, 0));
            }
        } else {
            if starts_with_seq(l0, f + " "@) {
                assert(l0.subrange(0, f.len() + 1int)[f.len() as int] == l0[f.len() as int]);
                assert((f + " "@)[f.len() as int] == ' ');
            }
            if starts_with_seq(l0, f + "="@) {
                assert(l0.subrange(0, f.len() + 1int)[f.len() as int] == l0[f.len() as int]);
                assert((f + "="@)[f.len() as int] == '=');
            }
        }
    }
    lemma_first_field_line(ls, f, 0);
    lemma_drop_trailing_blank(ls);
    lemma_not_blank(l0);
    lemma_drop_trailing_blank_keeps_first(ls);
    lemma_lines_have_no_newline(block);
    let fnl = block.last() == '\n';
    let (new_lines, w, ind) = match first_field_line(ls, f, 0) {
        Some(k) => (ls.update(k, indent_of(ls[k]) + assignment(f, v)), k, indent_of(ls[k])),
        None => (drop_trailing_blank(ls).push(assignment(f, v)), drop_trailing_blank(ls).len() as int, Seq::<char>::empty()),
    };
    assert(w >= 1);
    assert(new_lines[w] == ind + assignment(f, v)) by {
        match first_field_line(ls, f, 0) {
            Some(k) => {},
            None => { assert(ind + assignment(f, v) =~= assignment(f, v)); },
        }
    }
    assert forall|j: int| 0 <= j < new_lines.len() && j != w implies #[trigger] new_lines[j] == ls[j] && j < ls.len() by {}
    assert(new_lines[0] == l0);
    let n = updated_block(block, f, v);
    let jn = join_lines(new_lines);
    assert(n == jn + if fnl { "\n"@ } else { Seq::<char>::empty() });
    lemma_join_prefix(new_lines);
    assert forall|x: int| 0 <= x <= h implies #[trigger] n[x] == block[x] by {
        assert(n[x] == jn[x]);
        assert(jn.subrange(0, l0.len() as int)[x] == jn[x]);
    }
    assert forall|i: int| 0 <= i < ind.len() implies #[trigger] ind[i] == ' ' by {}
    assert forall|p: int| 0 < p implies !occurs_at(n, pat, p) by {
        if occurs_at(n, pat, p) {
            if p + 8 <= jn.len() {
                assert(jn.subrange(p, p + 8) =~= n.subrange(p, p + 8));
                assert(no_newline(pat)) by {
                    assert forall|i: int| 0 <= i < pat.len() implies pat[i] != '\n' by {}
                }
                let r = lemma_occurrence_in_some_line(new_lines, pat, p);
                if r.0 == w {
                    lemma_written_line_no_header(ind, f, v, r.1);
                } else {
                    let j = r.0;
                    let q = r.1;
                    assert(new_lines[j] == ls[j]);
                    assert(pieces[j].subrange(q, q + 8) =~= ls[j].subrange(q, q + 8));
                    let pb = lemma_occurrence_in_join(pieces, pat, j, q);
                    assert(occurs_at(block, pat, pb));
                }
            } else {
                assert(fnl);
                assert(n[jn.len() as int] == '\n');
                assert(n.subrange(p, p + 8)[jn.len() - p] == n[jn.len() as int]);
                assert(pat[jn.len() - p] == '\n');
            }
        }
    }
}

proof fn lemma_first_block_index(r: Seq<(Seq<char>, int, int)>, agent: Seq<char>, i: int) -> (k: int)
    requires
        0 <= i,
        first_block(r, agent, i) is Some,
    ensures
        i <= k < r.len(),
        r[k].0 == agent,
        first_block(r, agent, i) == Some((r[k].1, r[k].2)),
        forall|j: int| i <= j < k ==> (#[trigger] r[j]).0 != agent,
    decreases r.len() - i,
{
    if r[i].0 == agent {
        i
    } else {
        lemma_first_block_index(r, agent, i + 1)
    }
}

proof fn lemma_first_block_at(r: Seq<(Seq<char>, int, int)>, agent: Seq<char>, i: int, k: int)
    requires
        0 <= i <= k < r.len(),
        r[k].0 == agent,
        forall|j: int| i <= j < k ==> (#[trigger] r[j]).0 != agent,
    ensures
        first_block(r, agent, i) == Some((r[k].1, r[k].2)),
    decreases k - i,
{
    if i < k {
        lemma_first_block_at(r, agent, i + 1, k);
    }
}

/// Every entry the header scan lists is a header there.
proof fn lemma_markers_are_markers(s: Seq<char>, n: int)
    requires
        0 <= n,
    ensures
        forall|i: int| 0 <= i < markers_upto(s, n).len() ==> marker_at(s, #[trigger] markers_upto(s, n)[i].1) == Some(markers_upto(s, n)[i].0),
    decreases n,
{
    if n > 0 {
        lemma_markers_are_markers(s, n - 1);
        let prev = markers_upto(s, n - 1);
        assert forall|i: int| 0 <= i < markers_upto(s, n).len() implies marker_at(s, #[trigger] markers_upto(s, n)[i].1) == Some(markers_upto(s, n)[i].0) by {
            if i < prev.len() {
                assert(markers_upto(s, n)[i] == prev[i]);
            }
        }
    }
}

/// Two texts that agree up to a `c` at `e` find the same first `c` from `j`.
proof fn lemma_find_from_agree(t1: Seq<char>, t2: Seq<char>, c: char, j: int, e: int)
    requires
        0 <= j <= e,
        e < t1.len(),
        e < t2.len(),
        t1[e] == c,
        forall|x: int| j <= x <= e ==> #[trigger] t1[x] == t2[x],
    ensures
        find_from(t1, c, j) == find_from(t2, c, j),
        find_from(t1, c, j) is Some,
        find_from(t1, c, j).unwrap() <= e,
    decreases e - j,
{
    if t1[j] != c {
        lemma_find_from_agree(t1, t2, c, j + 1, e);
    }
}

/// Texts that agree up to a closing bracket at `e` have the same headers
/// before it.
proof fn lemma_marker_agree_prefix(t1: Seq<char>, t2: Seq<char>, i: int, e: int)
    requires
        0 <= i,
        i + 8 <= e,
        e < t1.len(),
        e < t2.len(),
        t1[e] == ']',
        forall|x: int| 0 <= x <= e ==> #[trigger] t1[x] == t2[x],
    ensures
        marker_at(t1, i) == marker_at(t2, i),
{
    reveal_strlit("[agents.");
    assert(t1.subrange(i, i + 8) =~= t2.subrange(i, i + 8));
    lemma_find_from_agree(t1, t2, ']', i + 8, e);
    lemma_find_from_bounds(t1, ']', i + 8);
    match find_from(t1, ']', i + 8) {
        Some(x) => {
            assert(t1.subrange(i + 8, x) =~= t2.subrange(i + 8, x));
        },
        None => {},
    }
}

/// Texts with the same tail find the same first `c` in it, shifted.
proof fn lemma_find_from_shift(t1: Seq<char>, t2: Seq<char>, c: char, o1: int, o2: int, u: int)
    requires
        0 <= o1 <= t1.len(),
        0 <= o2 <= t2.len(),
        0 <= u,
        t1.subrange(o1, t1.len() as int) == t2.subrange(o2, t2.len() as int),
    ensures
        match find_from(t1, c, o1 + u) {
            Some(x) => find_from(t2, c, o2 + u) == Some(x - o1 + o2),
            None => find_from(t2, c, o2 + u) is None,
        },
    decreases t1.len() - o1 - u,
{
    let q = t1.subrange(o1, t1.len() as int);
    if o1 + u < t1.len() {
        assert(t1[o1 + u] == q[u]);
        assert(t2[o2 + u] == t2.subrange(o2, t2.len() as int)[u]);
        if t1[o1 + u] != c {
            lemma_find_from_shift(t1, t2, c, o1, o2, u + 1);
        }
    } else {
        assert(q.len() == t2.subrange(o2, t2.len() as int).len());
    }
}

/// Texts with the same tail have the same headers in it.
proof fn lemma_marker_agree_tail(t1: Seq<char>, t2: Seq<char>, o1: int, o2: int, u: int)
    requires
        0 <= o1 <= t1.len(),
        0 <= o2 <= t2.len(),
        0 <= u,
        t1.subrange(o1, t1.len() as int) == t2.subrange(o2, t2.len() as int),
    ensures
        marker_at(t1, o1 + u) == marker_at(t2, o2 + u),
{
    reveal_strlit("[agents.");
    let q = t1.subrange(o1, t1.len() as int);
    assert(q.len() == t1.len() - o1);
    assert(t2.subrange(o2, t2.len() as int).len() == t2.len() - o2);
    assert(t1.len() - o1 == t2.len() - o2);
    if o1 + u + 8 <= t1.len() {
        assert(t1.subrange(o1 + u, o1 + u + 8) =~= t2.subrange(o2 + u, o2 + u + 8)) by {
            assert forall|x: int| 0 <= x < 8 implies #[trigger] t1.subrange(o1 + u, o1 + u + 8)[x] == t2.subrange(o2 + u, o2 + u + 8)[x] by {
                assert(t1[o1 + u + x] == q[u + x]);
                assert(t2[o2 + u + x] == t2.subrange(o2, t2.len() as int)[u + x]);
            }
        }
        lemma_find_from_shift(t1, t2, ']', o1, o2, u + 8);
        lemma_find_from_bounds(t1, ']', o1 + u + 8);
        match find_from(t1, ']', o1 + u + 8) {
            Some(x) => {
                assert(t1.subrange(o1 + u + 8, x) =~= t2.subrange(o2 + u + 8, x - o1 + o2)) by {
                    assert forall|y: int| 0 <= y < x - o1 - u - 8 implies #[trigger] t1.subrange(o1 + u + 8, x)[y] == t2.subrange(o2 + u + 8, x - o1 + o2)[y] by {
                        assert(t1[o1 + u + 8 + y] == q[u + 8 + y]);
                        assert(t2[o2 + u + 8 + y] == t2.subrange(o2, t2.len() as int)[u + 8 + y]);
                    }
                }
            },
            None => {},
        }
    }
}

/// A position whose eight-character window would run into a `[` that
/// starts a header at `b` holds no header text.
proof fn lemma_no_header_across(t: Seq<char>, i: int, b: int)
    requires
        i < b < i + 8,
        occurs_at(t, header_text(), b),
    ensures
        !occurs_at(t, header_text(), i),
{
    reveal_strlit("[agents.");
    if occurs_at(t, header_text(), i) {
        assert(t.subrange(b, b + 8)[0] == t[b]);
        assert(t.subrange(i, i + 8)[b - i] == t[b]);
        assert(header_text()[b - i] != '[');
    }
}

/// The header scan over texts whose headers agree position by position.
proof fn lemma_markers_upto_agree(t1: Seq<char>, t2: Seq<char>, n: int)
    requires
        0 <= n,
        forall|i: int| 0 <= i < n ==> #[trigger] marker_at(t1, i) == marker_at(t2, i),
    ensures
        markers_upto(t1, n) == markers_upto(t2, n),
    decreases n,
{
    if n > 0 {
        lemma_markers_upto_agree(t1, t2, n - 1);
    }
}

/// The header scan over a stretch without headers adds nothing.
proof fn lemma_markers_upto_flat(t: Seq<char>, m: int, n: int)
    requires
        0 <= m <= n,
        forall|i: int| m <= i < n ==> #[trigger] marker_at(t, i) is None,
    ensures
        markers_upto(t, n) == markers_upto(t, m),
    decreases n - m,
{
    if m < n {
        lemma_markers_upto_flat(t, m, n - 1);
    }
}

/// Header positions at or past `b` moved by `d`.
pub open spec fn shift_markers(m: Seq<(Seq<char>, int)>, b: int, d: int) -> Seq<(Seq<char>, int)> {
    m.map_values(|e: (Seq<char>, int)| (e.0, if e.1 >= b { e.1 + d } else { e.1 }))
}

/// The header scan past a spliced stretch: the same headers, moved.
proof fn lemma_markers_upto_shifted(t1: Seq<char>, t2: Seq<char>, b: int, d: int, n: int)
    requires
        0 <= b <= n,
        0 <= b + d,
        markers_upto(t2, b + d) == markers_upto(t1, b),
        forall|k: int| 0 <= k < markers_upto(t1, b).len() ==> #[trigger] markers_upto(t1, b)[k].1 < b,
        forall|i: int| b <= i < n ==> #[trigger] marker_at(t2, i + d) == marker_at(t1, i),
    ensures
        markers_upto(t2, n + d) == shift_markers(markers_upto(t1, n), b, d),
    decreases n - b,
{
    if n > b {
        lemma_markers_upto_shifted(t1, t2, b, d, n - 1);
        let prev = markers_upto(t1, n - 1);
        assert(marker_at(t2, n - 1 + d) == marker_at(t1, n - 1));
        match marker_at(t1, n - 1) {
            Some(id) => {
                assert(shift_markers(prev.push((id, n - 1)), b, d) =~= shift_markers(prev, b, d).push((id, n - 1 + d)));
            },
            None => {},
        }
    } else {
        assert(shift_markers(markers_upto(t1, b), b, d) =~= markers_upto(t1, b));
    }
}

/// Law (what a read gives back of a write), within one block: after `f`
/// is set to `v` in a block, the block's first assignment of `f` is `v`,
/// when the field name is plain, the value is on one line, and the lines
/// the reader takes as assigning `f` are ones the writer recognises.
pub proof fn law_updated_block_reads_back(block: Seq<char>, f: Seq<char>, v: Seq<char>)
    requires
        block.len() > 0,
        plain_field(f),
        no_newline(v),
        reader_agrees_with_writer(block, f),
    ensures
        first_field_value(lines_of(updated_block(block, f, v)), f, 0) == Some(v),
{
    reveal_strlit(" = \"");
    reveal_strlit("\"");
    reveal_strlit("\n");
    let ls = lines_of(block);
    lemma_lines_have_no_newline(block);
    lemma_first_field_line(ls, f, 0);
    lemma_drop_trailing_blank(ls);
    let fnl = block.len() > 0 && block.last() == '\n';
    let (new_lines, w, ind) = match first_field_line(ls, f, 0) {
        Some(k) => (ls.update(k, indent_of(ls[k]) + assignment(f, v)), k, indent_of(ls[k])),
        None => (drop_trailing_blank(ls).push(assignment(f, v)), drop_trailing_blank(ls).len() as int, Seq::<char>::empty()),
    };
    let written = ind + assignment(f, v);
    assert(new_lines[w] == written) by {
        match first_field_line(ls, f, 0) {
            Some(k) => {},
            None => { assert(written =~= assignment(f, v)); },
        }
    }
    lemma_spaces_are_white(0);
    assert forall|i: int| 0 <= i < ind.len() implies #[trigger] ind[i] == ' ' by {}
    assert(no_newline(written)) by {
        assert forall|i: int| 0 <= i < written.len() implies written[i] != '\n' by {
            let a = assignment(f, v);
            if i >= ind.len() {
                let j = i - ind.len();
                assert(written[i] == a[j]);
                if j < f.len() {
                    assert(a[j] == f[j]);
                } else if j >= f.len() + 4 && j < f.len() + 4 + v.len() {
                    assert(a[j] == v[j - f.len() - 4]);
                }
            }
        }
    }
    assert forall|i: int| 0 <= i < new_lines.len() implies no_newline(#[trigger] new_lines[i]) by {
        if i != w {
            assert(new_lines[i] == ls[i]);
        }
    }
    assert(new_lines.len() >= 1);
    let n = updated_block(block, f, v);
    assert(n == join_lines(new_lines) + if fnl { "\n"@ } else { Seq::<char>::empty() });
    assert(written.len() > 0 && written[written.len() - 1] == '"');
    lemma_join_ends_with_last(new_lines);
    if w == new_lines.len() - 1 {
        assert(join_lines(new_lines).len() > 0);
    } else {
        assert(new_lines.len() >= 2);
    }
    lemma_lines_of_join(new_lines, fnl);
    let lv = lines_of(n);
    let kept = if fnl || !(n.len() > 0 && n.last() == '\n') { new_lines } else { new_lines.drop_last() };
    assert(n.len() > 0);
    assert(lv == kept.map_values(|l: Seq<char>| strip_cr(l)));
    assert(w < kept.len()) by {
        if !fnl && n.last() == '\n' {
            assert(n == join_lines(new_lines));
            if w == new_lines.len() - 1 {
                assert(false);
            }
        }
    }
    assert(lv[w] == strip_cr(written));
    assert(strip_cr(written) == written);
    lemma_written_line_reads_back(ind, f, v);
    assert forall|j: int| 0 <= j < w implies field_value(#[trigger] lv[j], f) is None by {
        assert(lv[j] == strip_cr(kept[j]));
        assert(kept[j] == new_lines[j]);
        assert(new_lines[j] == ls[j]);
        lemma_field_value_strip_cr(ls[j], f);
        assert(!is_field_line(ls[j], f));
    }
    lemma_first_field_value_at(lv, f, 0, w, v);
}

/// The agent's header closes with `]` inside its block, on the header's
/// own line.
pub open spec fn header_closes_on_its_line(s: Seq<char>, a: int, b: int) -> bool {
    match find_from(s, ']', a + 8) {
        Some(e) => e < b && no_newline(s.subrange(a, e)),
        None => false,
    }
}

/// The text has a block for the agent whose header closes on its own
/// line, which holds no other `[agents.` text, and whose lines assigning
/// the field are all recognised by the writer.
pub open spec fn editable_block(s: Seq<char>, agent: Seq<char>, f: Seq<char>) -> bool {
    match block_bounds(s, agent) {
        Some((a, b)) => header_closes_on_its_line(s, a, b)
            && (forall|p: int| 0 < p ==> !occurs_at(s.subrange(a, b), header_text(), p))
            && reader_agrees_with_writer(s.subrange(a, b), f),
        None => false,
    }
}

/// Law (what a read gives back of a write): after an agent's field is set
/// to a value, reading that field of that agent gives the value back (that
/// the rest of the text is kept is `law_agent_field_update`). It holds when the
/// agent has a block whose header closes on its own line and which holds
/// no other agent header text, when the field name is plain and the lines
/// assigning it are ones the writer recognises, and when the value is on
/// one line and neither it nor the field name holds agent header text.
/// Without the header condition it fails: in `[agents.` / `x = "1"` / `]`
/// the agent is `x = "1"`, and writing `x` renames the agent. Without the
/// block condition it fails too, though every header text begins a line:
/// in `[agents.a]` / `y = "1"` / `[agents.` (a last block ending with a
/// bare header text that closes nowhere), setting `x` to `]` appends
/// `x = "]"`, which closes that header text and makes it a new header, so
/// the written line falls outside the agent's block.
#[verifier::spinoff_prover]
#[verifier::rlimit(40)]
pub proof fn law_agent_field_reads_back(s: Seq<char>, agent: Seq<char>, f: Seq<char>, v: Seq<char>)
    requires
        editable_block(s, agent, f),
        plain_field(f),
        no_newline(v),
        !contains_seq(f, header_text()),
        !contains_seq(v, header_text()),
    ensures
        agent_field(agent_field_updated(s, agent, f, v), agent, f) == Some(v),
{
    reveal_strlit("[agents.");
    let pat = header_text();
    let (a, b) = block_bounds(s, agent).unwrap();
    let r = agent_ranges(s);
    let m = markers_upto(s, s.len() as int);
    let k = lemma_first_block_index(r, agent, 0);
    assert(r[k] == (m[k].0, m[k].1, if k + 1 < m.len() { m[k + 1].1 } else { s.len() as int }));
    assert(a == m[k].1);
    lemma_markers_sorted(s, s.len() as int);
    lemma_markers_are_markers(s, s.len() as int);
    assert(marker_at(s, a) == Some(agent));
    lemma_find_from_bounds(s, ']', a + 8);
    let e = find_from(s, ']', a + 8).unwrap();
    assert(a + 8 <= e < b);
    assert(occurs_at(s, pat, a));
    lemma_block_bounds_within(s, agent);
    if k + 1 < m.len() {
        assert(marker_at(s, m[k + 1].1) == Some(m[k + 1].0));
        assert(occurs_at(s, pat, b));
    } else {
        assert(b == s.len());
    }
    let blk = s.subrange(a, b);
    assert(blk.subrange(0, 8) =~= s.subrange(a, a + 8));
    let h = e - a;
    assert(blk[h] == s[e]);
    assert(blk.subrange(0, h) =~= s.subrange(a, e));
    lemma_updated_block_keeps_header(blk, f, v, h);
    let n = updated_block(blk, f, v);
    let s2 = agent_field_updated(s, agent, f, v);
    assert(s2 == s.subrange(0, a) + n + s.subrange(b, s.len() as int));
    let c = a + n.len();
    let d = c - b;
    assert(s2.len() == s.len() + d);
    // before and at the header: the same headers
    assert forall|x: int| 0 <= x <= e implies #[trigger] s[x] == s2[x] by {
        if x >= a {
            assert(s2[x] == n[x - a]);
            assert(n[x - a] == blk[x - a]);
        }
    }
    assert forall|i: int| 0 <= i < a + 1 implies #[trigger] marker_at(s, i) == marker_at(s2, i) by {
        lemma_marker_agree_prefix(s, s2, i, e);
    }
    lemma_markers_upto_agree(s, s2, a + 1);
    // inside the rewritten block: no header
    assert forall|i: int| a + 1 <= i < c implies #[trigger] marker_at(s2, i) is None by {
        if i + 8 <= c {
            assert(s2.subrange(i, i + 8) =~= n.subrange(i - a, i - a + 8));
            assert(!occurs_at(n, pat, i - a));
        } else if b < s.len() {
            assert(s2.subrange(c, c + 8) =~= s.subrange(b, b + 8));
            lemma_no_header_across(s2, i, c);
        }
    }
    lemma_markers_upto_flat(s2, a + 1, c);
    assert forall|i: int| a + 1 <= i < b implies #[trigger] marker_at(s, i) is None by {
        if i + 8 <= b {
            assert(s.subrange(i, i + 8) =~= blk.subrange(i - a, i - a + 8));
            assert(!occurs_at(blk, pat, i - a));
        } else if b < s.len() {
            lemma_no_header_across(s, i, b);
        }
    }
    lemma_markers_upto_flat(s, a + 1, b);
    lemma_markers_sorted(s, b);
    // after the block: the same headers, moved
    assert(s.subrange(b, s.len() as int) =~= s2.subrange(c, s2.len() as int));
    assert forall|i: int| b <= i < s.len() implies #[trigger] marker_at(s2, i + d) == marker_at(s, i) by {
        lemma_marker_agree_tail(s, s2, b, c, i - b);
    }
    lemma_markers_upto_shifted(s, s2, b, d, s.len() as int);
    let m2 = markers_upto(s2, s2.len() as int);
    assert(m2 == shift_markers(m, b, d));
    let r2 = agent_ranges(s2);
    assert forall|j: int| 0 <= j < k implies (#[trigger] r2[j]).0 != agent by {
        assert(r2[j].0 == m2[j].0);
        assert(m2[j].0 == m[j].0);
        assert(r[j].0 == m[j].0);
    }
    assert(m[k].1 < b);
    assert(r2[k] == (agent, a, c)) by {
        if k + 1 < m.len() {
            assert(m[k + 1].1 == b);
            assert(m2[k + 1].1 == b + d);
        }
    }
    lemma_first_block_at(r2, agent, 0, k);
    assert(block_bounds(s2, agent) == Some((a, c)));
    assert(s2.subrange(a, c) =~= n);
    law_updated_block_reads_back(blk, f, v);
}

/// Law: setting an agent's field, where the read-back law's conditions
/// hold, gives the value back on the next read and keeps the text before
/// and after the agent's block (the other agents' blocks) as it was.
pub proof fn law_agent_field_update(s: Seq<char>, agent: Seq<char>, f: Seq<char>, v: Seq<char>)
    requires
        editable_block(s, agent, f),
        plain_field(f),
        no_newline(v),
        !contains_seq(f, header_text()),
        !contains_seq(v, header_text()),
    ensures
        agent_field(agent_field_updated(s, agent, f, v), agent, f) == Some(v),
        match block_bounds(s, agent) {
            Some((a, b)) => {
                let r = agent_field_updated(s, agent, f, v);
                &&& r.subrange(0, a) == s.subrange(0, a)
                &&& r.subrange(r.len() - (s.len() - b), r.len() as int) == s.subrange(b, s.len() as int)
            },
            None => false,
        },
{
    law_agent_field_reads_back(s, agent, f, v);
    crate::agent_routes::law_update_stays_inside_block(s, agent, f, v);
}

} // verus!
