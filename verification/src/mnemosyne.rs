//! Mnemosyne memory encoding: the tags of a manually encoded event.

use vstd::prelude::*;
use crate::text::{owned, str_eq};

verus! {

/// The tags of a manually encoded event: the given tags, with `manual`
/// added at the end unless one of them already is `manual` (so an event
/// without tags is tagged `manual` alone).
pub open spec fn manual_tags_of(tags: Seq<Seq<char>>) -> Seq<Seq<char>> {
    if tags.contains("manual"@) { tags } else { tags.push("manual"@) }
}

/// Tags a manually encoded event.
pub fn manual_event_tags(tags: Vec<String>) -> (out: Vec<String>)
    ensures
        out.deep_view() == manual_tags_of(tags.deep_view()),
{
    let mut out = tags;
    let ghost given = out.deep_view();
    let mut i: usize = 0;
    while i < out.len()
        invariant
            i <= out.len(),
            out.deep_view() == given,
            given == tags.deep_view(),
            forall|j: int| 0 <= j < i ==> given[j] != "manual"@,
        decreases out.len() - i,
    {
        if str_eq(out[i].as_str(), "manual") {
            proof {
                assert(given[i as int] == "manual"@);
                assert(given.contains("manual"@));
            }
            return out;
        }
        i += 1;
    }
    let m = owned("manual");
    out.push(m);
    proof {
        assert(!given.contains("manual"@));
        assert(out.deep_view() =~= given.push("manual"@));
    }
    out
}

/// Law (manual tags): a manually encoded event is always tagged "manual",
/// keeps the given tags in order in front, gains at most that one tag,
/// and tagging it again changes nothing.
pub proof fn law_manual_tag_added_once(tags: Seq<Seq<char>>)
    ensures
        manual_tags_of(tags).contains("manual"@),
        manual_tags_of(tags).subrange(0, tags.len() as int) == tags,
        manual_tags_of(tags).len() <= tags.len() + 1,
        manual_tags_of(manual_tags_of(tags)) == manual_tags_of(tags),
{
    if !tags.contains("manual"@) {
        assert(tags.push("manual"@)[tags.len() as int] == "manual"@);
        assert(tags.push("manual"@).subrange(0, tags.len() as int) =~= tags);
    } else {
        assert(tags.subrange(0, tags.len() as int) =~= tags);
    }
}

} // verus!
