//! Agent lists as the operator writes them: names separated by commas or
//! white space, repeated names counted once, first mention first.

use vstd::prelude::*;
use crate::text::{chars_eq, chars_to_string, is_white_space, str_chars, white_space};

verus! {

/// Characters that separate agent names.
pub open spec fn is_agent_separator(c: char) -> bool {
    is_white_space(c) || c == ','
}

/// The maximal runs of non-separator characters of `s`, in order.
pub open spec fn agent_tokens(s: Seq<char>) -> Seq<Seq<char>>
    decreases s.len(),
{
    if s.len() == 0 {
        Seq::empty()
    } else {
        let prev = agent_tokens(s.drop_last());
        let c = s.last();
        if is_agent_separator(c) {
            prev
        } else if s.len() >= 2 && !is_agent_separator(s[s.len() - 2]) {
            prev.update(prev.len() - 1, prev.last().push(c))
        } else {
            prev.push(seq![c])
        }
    }
}

/// `items` with every repetition of an earlier item dropped.
pub open spec fn dedupe_first(items: Seq<Seq<char>>) -> Seq<Seq<char>>
    decreases items.len(),
{
    if items.len() == 0 {
        Seq::empty()
    } else {
        let prev = dedupe_first(items.drop_last());
        if prev.contains(items.last()) { prev } else { prev.push(items.last()) }
    }
}

/// The agents named by `raw`, each once, in order of first mention.
pub open spec fn agent_list(raw: Seq<char>) -> Seq<Seq<char>> {
    dedupe_first(agent_tokens(raw))
}

proof fn lemma_tokens_nonempty(s: Seq<char>)
    ensures
        s.len() > 0 && !is_agent_separator(s.last()) ==> agent_tokens(s).len() > 0,
        forall|k: int| 0 <= k < agent_tokens(s).len() ==> #[trigger] agent_tokens(s)[k].len() > 0,
    decreases s.len(),
{
    if s.len() > 0 {
        lemma_tokens_nonempty(s.drop_last());
    }
}

/// Splits `raw` at separators, collecting each token as characters.
fn split_agent_tokens(raw: &str) -> (toks: Vec<Vec<char>>)
    ensures
        toks@.map_values(|t: Vec<char>| t@) == agent_tokens(raw@),
{
    let v = str_chars(raw);
    let mut toks: Vec<Vec<char>> = Vec::new();
    let mut cur: Vec<char> = Vec::new();
    let mut i: usize = 0;
    while i < v.len()
        invariant
            i <= v.len(),
            v@ == raw@,
            (cur@.len() > 0) == (i > 0 && !is_agent_separator(v@[i - 1])),
            agent_tokens(v@.subrange(0, i as int)) == if cur@.len() > 0 {
                toks@.map_values(|t: Vec<char>| t@).push(cur@)
            } else {
                toks@.map_values(|t: Vec<char>| t@)
            },
        decreases v.len() - i,
    {
        let c = v[i];
        let ghost sub = v@.subrange(0, i + 1);
        proof {
            assert(sub.drop_last() =~= v@.subrange(0, i as int));
            assert(sub.last() == c);
            if i >= 1 {
                assert(sub[sub.len() - 2] == v@[i - 1]);
            }
        }
        if white_space(c) || c == ',' {
            if cur.len() > 0 {
                let ghost before = toks@.map_values(|t: Vec<char>| t@);
                toks.push(cur);
                proof {
                    assert(toks@.map_values(|t: Vec<char>| t@) =~= before.push(cur@));
                }
                cur = Vec::new();
            }
        } else {
            let ghost old_cur = cur@;
            let ghost tm = toks@.map_values(|t: Vec<char>| t@);
            cur.push(c);
            proof {
                if old_cur.len() > 0 {
                    assert(tm.push(old_cur).update(tm.len() as int, old_cur.push(c)) =~= tm.push(cur@));
                } else {
                    assert(cur@ =~= seq![c]);
                }
            }
        }
        proof {
            assert(v@.subrange(0, (i + 1) as int) == sub);
        }
        i += 1;
    }
    if cur.len() > 0 {
        let ghost before = toks@.map_values(|t: Vec<char>| t@);
        toks.push(cur);
        proof {
            assert(toks@.map_values(|t: Vec<char>| t@) =~= before.push(cur@));
        }
    }
    proof {
        assert(v@.subrange(0, v@.len() as int) == v@);
    }
    toks
}

fn contains_token(items: &Vec<Vec<char>>, t: &Vec<char>) -> (r: bool)
    ensures
        r == items@.map_values(|x: Vec<char>| x@).contains(t@),
{
    let mut i: usize = 0;
    while i < items.len()
        invariant
            i <= items.len(),
            forall|j: int| 0 <= j < i ==> items@[j]@ != t@,
        decreases items.len() - i,
    {
        if chars_eq(&items[i], t) {
            proof {
                assert(items@.map_values(|x: Vec<char>| x@)[i as int] == t@);
            }
            return true;
        }
        i += 1;
    }
    proof {
        let m = items@.map_values(|x: Vec<char>| x@);
        if m.contains(t@) {
            let j = choose|j: int| 0 <= j < m.len() && #[trigger] m[j] == t@;
            assert(items@[j]@ == t@);
        }
    }
    false
}

/// Parses an agent list: names separated by commas or white space, each
/// name kept once at its first mention.
pub fn normalized_agents(raw: &str) -> (out: Vec<String>)
    ensures
        out.deep_view() == agent_list(raw@),
{
    let toks = split_agent_tokens(raw);
    let ghost all = toks@.map_values(|t: Vec<char>| t@);
    let mut kept: Vec<Vec<char>> = Vec::new();
    let mut i: usize = 0;
    while i < toks.len()
        invariant
            i <= toks.len(),
            all == toks@.map_values(|t: Vec<char>| t@),
            kept@.map_values(|t: Vec<char>| t@) == dedupe_first(all.subrange(0, i as int)),
        decreases toks.len() - i,
    {
        let ghost sub = all.subrange(0, i + 1);
        proof {
            assert(sub.drop_last() =~= all.subrange(0, i as int));
            assert(sub.last() == toks@[i as int]@);
        }
        if !contains_token(&kept, &toks[i]) {
            let ghost before = kept@.map_values(|t: Vec<char>| t@);
            kept.push(toks[i].clone());
            proof {
                assert(kept@.map_values(|t: Vec<char>| t@) =~= before.push(toks@[i as int]@));
            }
        }
        proof {
            assert(all.subrange(0, (i + 1) as int) == sub);
        }
        i += 1;
    }
    proof {
        assert(all.subrange(0, all.len() as int) == all);
    }
    let mut out: Vec<String> = Vec::new();
    let mut j: usize = 0;
    while j < kept.len()
        invariant
            j <= kept.len(),
            out.deep_view() == kept@.map_values(|t: Vec<char>| t@).subrange(0, j as int),
        decreases kept.len() - j,
    {
        let s = chars_to_string(kept[j].as_slice());
        let ghost before = out.deep_view();
        out.push(s);
        proof {
            assert(out.deep_view() =~= before.push(s@));
            assert(kept@.map_values(|t: Vec<char>| t@).subrange(0, j + 1) =~= kept@.map_values(
                |t: Vec<char>| t@,
            ).subrange(0, j as int).push(kept@[j as int]@));
        }
        j += 1;
    }
    proof {
        let m = kept@.map_values(|t: Vec<char>| t@);
        assert(m.subrange(0, m.len() as int) == m);
    }
    out
}

proof fn lemma_dedupe_facts(items: Seq<Seq<char>>)
    ensures
        forall|a: int, b: int|
            0 <= a < b < dedupe_first(items).len() ==> dedupe_first(items)[a] != dedupe_first(items)[b],
        forall|x: Seq<char>| #[trigger] dedupe_first(items).contains(x) <==> items.contains(x),
    decreases items.len(),
{
    if items.len() > 0 {
        let prev = dedupe_first(items.drop_last());
        lemma_dedupe_facts(items.drop_last());
        assert forall|x: Seq<char>| #[trigger] dedupe_first(items).contains(x) <==> items.contains(x) by {
            if items.contains(x) {
                let k = choose|k: int| 0 <= k < items.len() && items[k] == x;
                if k < items.len() - 1 {
                    assert(items.drop_last()[k] == x);
                    assert(items.drop_last().contains(x));
                }
            }
            if items.drop_last().contains(x) {
                let k = choose|k: int| 0 <= k < items.drop_last().len() && items.drop_last()[k] == x;
                assert(items[k] == x);
            }
            if prev.contains(x) && !prev.contains(items.last()) {
                let k = choose|k: int| 0 <= k < prev.len() && prev[k] == x;
                assert(prev.push(items.last())[k] == x);
            }
            if !prev.contains(items.last()) && x == items.last() {
                assert(prev.push(items.last())[prev.len() as int] == x);
            }
            if !prev.contains(items.last()) && prev.push(items.last()).contains(x) {
                let k = choose|k: int| 0 <= k < prev.len() + 1 && prev.push(items.last())[k] == x;
                if k < prev.len() {
                    assert(prev[k] == x);
                }
            }
        }
    }
}

/// Law: the parsed agent list names every agent of the input exactly once.
/// No name occurs twice, and a name is listed iff it is a token of `raw`.
pub proof fn law_agent_list_is_duplicate_free(raw: Seq<char>)
    ensures
        forall|a: int, b: int|
            0 <= a < b < agent_list(raw).len() ==> agent_list(raw)[a] != agent_list(raw)[b],
        forall|x: Seq<char>| #[trigger] agent_list(raw).contains(x) <==> agent_tokens(raw).contains(x),
        forall|k: int| 0 <= k < agent_list(raw).len() ==> #[trigger] agent_list(raw)[k].len() > 0,
{
    lemma_dedupe_facts(agent_tokens(raw));
    lemma_tokens_nonempty(raw);
    assert forall|k: int| 0 <= k < agent_list(raw).len() implies #[trigger] agent_list(raw)[k].len() > 0 by {
        assert(agent_list(raw).contains(agent_list(raw)[k]));
        assert(agent_tokens(raw).contains(agent_list(raw)[k]));
        let j = choose|j: int| 0 <= j < agent_tokens(raw).len() && agent_tokens(raw)[j] == agent_list(raw)[k];
        assert(agent_tokens(raw)[j].len() > 0);
    }
}

proof fn lemma_tokens_have_no_separators(s: Seq<char>)
    ensures
        forall|k: int, i: int| 0 <= k < agent_tokens(s).len() && 0 <= i < agent_tokens(s)[k].len()
            ==> !is_agent_separator(#[trigger] agent_tokens(s)[k][i]),
    decreases s.len(),
{
    if s.len() > 0 {
        let p = s.drop_last();
        lemma_tokens_have_no_separators(p);
        let prev = agent_tokens(p);
        let c = s.last();
        let cur = agent_tokens(s);
        if !is_agent_separator(c) {
            if s.len() >= 2 && !is_agent_separator(s[s.len() - 2]) {
                lemma_tokens_nonempty(p);
                assert(p.last() == s[s.len() - 2]);
                assert forall|k: int, i: int| 0 <= k < cur.len() && 0 <= i < cur[k].len()
                    implies !is_agent_separator(#[trigger] cur[k][i]) by {
                    if k < prev.len() - 1 {
                        assert(cur[k] == prev[k]);
                    } else {
                        assert(cur[k] == prev.last().push(c));
                        if i < prev.last().len() {
                            assert(cur[k][i] == prev[prev.len() - 1][i]);
                        }
                    }
                }
            } else {
                assert forall|k: int, i: int| 0 <= k < cur.len() && 0 <= i < cur[k].len()
                    implies !is_agent_separator(#[trigger] cur[k][i]) by {
                    if k < prev.len() {
                        assert(cur[k] == prev[k]);
                    }
                }
            }
        }
    }
}

/// Law (agent names): commas and white space separate names, so no
/// listed agent name contains either.
pub proof fn law_agent_names_hold_no_separators(raw: Seq<char>)
    ensures
        is_agent_separator(',') && is_agent_separator(' '),
        forall|k: int, i: int| 0 <= k < agent_list(raw).len() && 0 <= i < agent_list(raw)[k].len()
            ==> #[trigger] agent_list(raw)[k][i] != ',' && !is_white_space(agent_list(raw)[k][i]),
{
    lemma_tokens_have_no_separators(raw);
    lemma_dedupe_facts(agent_tokens(raw));
    assert forall|k: int, i: int| 0 <= k < agent_list(raw).len() && 0 <= i < agent_list(raw)[k].len()
        implies #[trigger] agent_list(raw)[k][i] != ',' && !is_white_space(agent_list(raw)[k][i]) by {
        assert(agent_list(raw).contains(agent_list(raw)[k]));
        let j = choose|j: int| 0 <= j < agent_tokens(raw).len() && agent_tokens(raw)[j] == agent_list(raw)[k];
        assert(!is_agent_separator(agent_tokens(raw)[j][i]));
    }
}

} // verus!
