//! Line-oriented text: splitting at newlines as `str::lines` does, and
//! joining lines back.

use vstd::prelude::*;
use crate::text::{is_white_space, leading_ws, white_space};

verus! {

/// The pieces of `s` between newline characters; one more piece than
/// there are newlines.
pub open spec fn newline_pieces(s: Seq<char>) -> Seq<Seq<char>>
    decreases s.len(),
{
    if s.len() == 0 {
        seq![Seq::empty()]
    } else {
        let prev = newline_pieces(s.drop_last());
        if s.last() == '\n' {
            prev.push(Seq::empty())
        } else {
            prev.update(prev.len() - 1, prev.last().push(s.last()))
        }
    }
}

/// A line without its trailing carriage return, if any.
pub open spec fn strip_cr(line: Seq<char>) -> Seq<char> {
    if line.len() > 0 && line.last() == '\r' { line.drop_last() } else { line }
}

/// The lines of `s` as `str::lines` yields them: split at `\n`, a final
/// `\r` removed from each line, and no empty line after a final newline.
pub open spec fn lines_of(s: Seq<char>) -> Seq<Seq<char>> {
    if s.len() == 0 {
        Seq::empty()
    } else {
        let p = newline_pieces(s);
        let kept = if s.last() == '\n' { p.drop_last() } else { p };
        kept.map_values(|l: Seq<char>| strip_cr(l))
    }
}

pub proof fn lemma_pieces_nonempty(s: Seq<char>)
    ensures
        newline_pieces(s).len() >= 1,
    decreases s.len(),
{
    if s.len() > 0 {
        lemma_pieces_nonempty(s.drop_last());
    }
}

fn strip_cr_exec(line: Vec<char>) -> (r: Vec<char>)
    ensures
        r@ == strip_cr(line@),
{
    let mut line = line;
    if line.len() > 0 && line[line.len() - 1] == '\r' {
        line.pop();
    }
    line
}

/// Splits text into lines (`str::lines`).
pub fn split_lines(s: &Vec<char>) -> (out: Vec<Vec<char>>)
    ensures
        out@.map_values(|l: Vec<char>| l@) == lines_of(s@),
{
    let mut pieces: Vec<Vec<char>> = Vec::new();
    let mut cur: Vec<char> = Vec::new();
    let mut i: usize = 0;
    while i < s.len()
        invariant
            i <= s.len(),
            pieces@.map_values(|l: Vec<char>| l@).push(cur@) == newline_pieces(s@.subrange(0, i as int)),
        decreases s.len() - i,
    {
        let c = s[i];
        let ghost sub = s@.subrange(0, i + 1);
        let ghost pm = pieces@.map_values(|l: Vec<char>| l@);
        let ghost old_cur = cur@;
        proof {
            assert(sub.drop_last() =~= s@.subrange(0, i as int));
            assert(sub.last() == c);
        }
        if c == '\n' {
            pieces.push(cur);
            cur = Vec::new();
            proof {
                assert(pieces@.map_values(|l: Vec<char>| l@) =~= pm.push(old_cur));
            }
        } else {
            cur.push(c);
            proof {
                assert(pm.push(old_cur).update(pm.len() as int, old_cur.push(c)) =~= pm.push(cur@));
            }
        }
        proof {
            assert(s@.subrange(0, (i + 1) as int) == sub);
        }
        i += 1;
    }
    proof {
        assert(s@.subrange(0, s@.len() as int) =~= s@);
    }
    if s.len() == 0 {
        return Vec::new();
    }
    let ends_nl = s[s.len() - 1] == '\n';
    let ghost all = pieces@.map_values(|l: Vec<char>| l@).push(cur@);
    let mut kept: Vec<Vec<char>> = pieces;
    if !ends_nl {
        let ghost before = kept@.map_values(|l: Vec<char>| l@);
        kept.push(cur);
        proof {
            assert(kept@.map_values(|l: Vec<char>| l@) =~= before.push(all.last()));
            assert(kept@.map_values(|l: Vec<char>| l@) =~= all);
        }
    } else {
        proof {
            assert(kept@.map_values(|l: Vec<char>| l@) =~= all.drop_last());
        }
    }
    let ghost kv = kept@.map_values(|l: Vec<char>| l@);
    let mut out: Vec<Vec<char>> = Vec::new();
    let mut j: usize = 0;
    let n = kept.len();
    while j < n
        invariant
            j <= n,
            n == kv.len(),
            kept@.len() == n,
            forall|k: int| j <= k < n ==> #[trigger] kept@[k]@ == kv[k],
            out@.map_values(|l: Vec<char>| l@) == kv.subrange(0, j as int).map_values(|l: Seq<char>| strip_cr(l)),
        decreases n - j,
    {
        let line = kept[j].clone();
        let ghost before = out@.map_values(|l: Vec<char>| l@);
        let st = strip_cr_exec(line);
        out.push(st);
        proof {
            assert(out@.map_values(|l: Vec<char>| l@) =~= before.push(strip_cr(kv[j as int])));
            assert(kv.subrange(0, j + 1).map_values(|l: Seq<char>| strip_cr(l)) =~= kv.subrange(0, j as int).map_values(
                |l: Seq<char>| strip_cr(l),
            ).push(strip_cr(kv[j as int])));
        }
        j += 1;
    }
    proof {
        assert(kv.subrange(0, n as int) =~= kv);
    }
    out
}

/// Lines joined with `\n` between neighbours.
pub open spec fn join_lines(lines: Seq<Seq<char>>) -> Seq<char>
    decreases lines.len(),
{
    if lines.len() == 0 {
        Seq::empty()
    } else if lines.len() == 1 {
        lines[0]
    } else {
        join_lines(lines.drop_last()) + "\n"@ + lines.last()
    }
}

/// Joins lines with `\n` between neighbours.
pub fn join_lines_exec(lines: &Vec<Vec<char>>) -> (r: Vec<char>)
    ensures
        r@ == join_lines(lines@.map_values(|l: Vec<char>| l@)),
{
    let ghost lv = lines@.map_values(|l: Vec<char>| l@);
    let mut out: Vec<char> = Vec::new();
    let mut i: usize = 0;
    while i < lines.len()
        invariant
            i <= lines.len(),
            lv == lines@.map_values(|l: Vec<char>| l@),
            out@ == join_lines(lv.subrange(0, i as int)),
        decreases lines.len() - i,
    {
        let ghost sub = lv.subrange(0, i + 1);
        proof {
            assert(sub.drop_last() =~= lv.subrange(0, i as int));
            assert(sub.last() == lines@[i as int]@);
        }
        if i > 0 {
            out.push('\n');
        }
        let ghost mid = out@;
        let mut k: usize = 0;
        while k < lines[i].len()
            invariant
                i < lines.len(),
                k <= lines@[i as int]@.len(),
                out@ == mid + lines@[i as int]@.subrange(0, k as int),
            decreases lines@[i as int]@.len() - k,
        {
            out.push(lines[i][k]);
            proof {
                assert(lines@[i as int]@.subrange(0, k + 1) =~= lines@[i as int]@.subrange(0, k as int).push(lines@[i as int]@[k as int]));
            }
            k += 1;
        }
        proof {
            assert(lines@[i as int]@.subrange(0, lines@[i as int]@.len() as int) =~= lines@[i as int]@);
            if i == 0 {
                assert(sub.len() == 1);
                assert(out@ =~= sub[0]);
            } else {
                reveal_strlit("\n");
                assert(out@ =~= join_lines(sub.drop_last()) + "\n"@ + sub.last());
            }
            assert(lv.subrange(0, (i + 1) as int) == sub);
        }
        i += 1;
    }
    proof {
        assert(lv.subrange(0, lv.len() as int) =~= lv);
    }
    out
}

/// `str::trim_start`: the text without its leading white space.
pub open spec fn trim_start_seq(s: Seq<char>) -> Seq<char> {
    s.subrange(leading_ws_len(s), s.len() as int)
}

/// The number of leading white-space characters, as an index.
pub open spec fn leading_ws_len(s: Seq<char>) -> int {
    if leading_ws(s) <= s.len() { leading_ws(s) as int } else { s.len() as int }
}

/// The text holds no newline character.
pub open spec fn no_newline(s: Seq<char>) -> bool {
    forall|i: int| 0 <= i < s.len() ==> s[i] != '\n'
}

proof fn lemma_pieces_single(s: Seq<char>)
    requires
        no_newline(s),
    ensures
        newline_pieces(s) == seq![s],
    decreases s.len(),
{
    if s.len() > 0 {
        assert(no_newline(s.drop_last()));
        lemma_pieces_single(s.drop_last());
        assert(s[s.len() - 1] != '\n');
        assert(s.drop_last().push(s.last()) =~= s);
        assert(seq![s.drop_last()].update(0, s.drop_last().push(s.last())) =~= seq![s]);
    } else {
        assert(s =~= Seq::<char>::empty());
    }
}

proof fn lemma_pieces_concat(a: Seq<char>, b: Seq<char>)
    ensures
        newline_pieces(a + seq!['\n'] + b) == newline_pieces(a) + newline_pieces(b),
    decreases b.len(),
{
    let s = a + seq!['\n'] + b;
    if b.len() == 0 {
        assert(s.drop_last() =~= a);
        assert(newline_pieces(a).push(Seq::<char>::empty()) =~= newline_pieces(a) + seq![Seq::<char>::empty()]);
    } else {
        let b1 = b.drop_last();
        lemma_pieces_concat(a, b1);
        lemma_pieces_nonempty(b1);
        assert(s.drop_last() =~= a + seq!['\n'] + b1);
        let x = newline_pieces(a);
        let y = newline_pieces(b1);
        if b.last() == '\n' {
            assert((x + y).push(Seq::<char>::empty()) =~= x + y.push(Seq::<char>::empty()));
        } else {
            assert((x + y).update((x + y).len() - 1, (x + y).last().push(b.last()))
                =~= x + y.update(y.len() - 1, y.last().push(b.last())));
        }
    }
}

/// Joined lines without newlines split back into the same lines.
pub proof fn lemma_pieces_of_join(ls: Seq<Seq<char>>)
    requires
        ls.len() >= 1,
        forall|i: int| 0 <= i < ls.len() ==> no_newline(#[trigger] ls[i]),
    ensures
        newline_pieces(join_lines(ls)) == ls,
    decreases ls.len(),
{
    if ls.len() == 1 {
        lemma_pieces_single(ls[0]);
        assert(seq![ls[0]] =~= ls);
    } else {
        let init = ls.drop_last();
        assert forall|i: int| 0 <= i < init.len() implies no_newline(#[trigger] init[i]) by {
            assert(init[i] == ls[i]);
        }
        lemma_pieces_of_join(init);
        reveal_strlit("\n");
        assert("\n"@ =~= seq!['\n']);
        lemma_pieces_concat(join_lines(init), ls.last());
        assert(no_newline(ls[ls.len() - 1]));
        lemma_pieces_single(ls.last());
        assert(init + seq![ls.last()] =~= ls);
    }
}

proof fn lemma_pieces_have_no_newline(s: Seq<char>)
    ensures
        forall|i: int| 0 <= i < newline_pieces(s).len() ==> no_newline(#[trigger] newline_pieces(s)[i]),
    decreases s.len(),
{
    if s.len() > 0 {
        lemma_pieces_have_no_newline(s.drop_last());
        lemma_pieces_nonempty(s.drop_last());
        let p = newline_pieces(s.drop_last());
        if s.last() != '\n' {
            assert forall|i: int| 0 <= i < newline_pieces(s).len() implies no_newline(#[trigger] newline_pieces(s)[i]) by {
                if i == p.len() - 1 {
                    let l = p.last().push(s.last());
                    assert(no_newline(p[p.len() - 1]));
                    assert forall|j: int| 0 <= j < l.len() implies l[j] != '\n' by {
                        if j < l.len() - 1 {
                            assert(l[j] == p.last()[j]);
                        }
                    }
                } else {
                    assert(newline_pieces(s)[i] == p[i]);
                }
            }
        } else {
            assert forall|i: int| 0 <= i < newline_pieces(s).len() implies no_newline(#[trigger] newline_pieces(s)[i]) by {
                if i < p.len() {
                    assert(newline_pieces(s)[i] == p[i]);
                }
            }
        }
    }
}

/// The lines of a text hold no newline character.
pub proof fn lemma_lines_have_no_newline(s: Seq<char>)
    ensures
        forall|i: int| 0 <= i < lines_of(s).len() ==> no_newline(#[trigger] lines_of(s)[i]),
{
    if s.len() > 0 {
        lemma_pieces_have_no_newline(s);
        lemma_pieces_nonempty(s);
        let p = newline_pieces(s);
        let kept = if s.last() == '\n' { p.drop_last() } else { p };
        assert forall|i: int| 0 <= i < lines_of(s).len() implies no_newline(#[trigger] lines_of(s)[i]) by {
            assert(kept[i] == p[i]);
            assert(no_newline(p[i]));
            let l = strip_cr(kept[i]);
            assert forall|j: int| 0 <= j < l.len() implies l[j] != '\n' by {
                assert(l[j] == kept[i][j]);
            }
        }
    }
}

/// The lines of joined lines (with an optional final newline): the same
/// lines without their final carriage returns, except that a final empty
/// line is dropped when the text ends with a newline.
pub proof fn lemma_lines_of_join(ls: Seq<Seq<char>>, final_newline: bool)
    requires
        ls.len() >= 1,
        forall|i: int| 0 <= i < ls.len() ==> no_newline(#[trigger] ls[i]),
    ensures
        ({
            let s = join_lines(ls) + if final_newline { "\n"@ } else { Seq::<char>::empty() };
            let kept = if final_newline || !(s.len() > 0 && s.last() == '\n') { ls } else { ls.drop_last() };
            s.len() > 0 ==> lines_of(s) == kept.map_values(|l: Seq<char>| strip_cr(l))
        }),
{
    lemma_pieces_of_join(ls);
    let j = join_lines(ls);
    reveal_strlit("\n");
    if final_newline {
        let s = j + "\n"@;
        assert(s.drop_last() =~= j);
        assert(newline_pieces(s) == ls.push(Seq::<char>::empty()));
        assert(ls.push(Seq::<char>::empty()).drop_last() =~= ls);
    } else {
        assert(j + Seq::<char>::empty() =~= j);
    }
}

/// Joined lines end with the last line, and are not empty when there are
/// two lines or more.
pub proof fn lemma_join_ends_with_last(ls: Seq<Seq<char>>)
    requires
        ls.len() >= 1,
    ensures
        ls.last().len() > 0 ==> join_lines(ls).len() > 0
            && join_lines(ls)[join_lines(ls).len() - 1] == ls.last()[ls.last().len() - 1],
        ls.len() >= 2 ==> join_lines(ls).len() > 0,
{
    reveal_strlit("\n");
    if ls.len() >= 2 {
        let j = join_lines(ls.drop_last()) + "\n"@ + ls.last();
        assert(join_lines(ls) == j);
        if ls.last().len() > 0 {
            assert(j[j.len() - 1] == ls.last()[ls.last().len() - 1]);
        }
    }
}

} // verus!
