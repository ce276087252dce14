//! The Athena crawl fallback: providers are tried in the configured order
//! until one fetches the page; unsupported names are passed over.

use vstd::prelude::*;
use crate::text::str_eq;

verus! {

/// The kinds of crawl provider the fetch knows.
#[derive(Debug, Clone, Copy, PartialEq, Eq, Structural)]
pub enum CrawlProviderKind {
    Scrapling,
    Crawl4ai,
    /// A name the fetch does not support; it is recorded as skipped.
    Unsupported,
}

/// The kind a provider name names.
pub open spec fn crawl_kind_of(name: Seq<char>) -> CrawlProviderKind {
    if name == "scrapling"@ {
        CrawlProviderKind::Scrapling
    } else if name == "crawl4ai"@ {
        CrawlProviderKind::Crawl4ai
    } else {
        CrawlProviderKind::Unsupported
    }
}

/// Classifies a provider name.
pub fn crawl_provider_kind(name: &str) -> (k: CrawlProviderKind)
    ensures
        k == crawl_kind_of(name@),
{
    if str_eq(name, "scrapling") {
        CrawlProviderKind::Scrapling
    } else if str_eq(name, "crawl4ai") {
        CrawlProviderKind::Crawl4ai
    } else {
        CrawlProviderKind::Unsupported
    }
}

/// What the crawl does next.
#[derive(Debug, Clone, Copy, PartialEq, Eq, Structural)]
pub enum CrawlStep {
    /// Try the provider at this position of the order.
    Attempt(usize, CrawlProviderKind),
    /// The provider at this position fetched the page.
    Finished(usize),
    /// Every provider failed or was skipped.
    AllFailed,
}

/// The step owed after the last attempt (`None` before the first one).
pub open spec fn crawl_step_of(order: Seq<Seq<char>>, last: Option<(usize, bool)>) -> CrawlStep {
    match last {
        Some((i, true)) => CrawlStep::Finished(i),
        _ => {
            let n: int = match last {
                Some((i, _)) => i + 1,
                None => 0,
            };
            if n < order.len() {
                CrawlStep::Attempt(n as usize, crawl_kind_of(order[n]))
            } else {
                CrawlStep::AllFailed
            }
        },
    }
}

/// Decides the next crawl step from the provider order and the last
/// attempt (its position and whether it fetched the page): a success
/// finishes; a failure, or a skipped provider, moves to the next one in
/// order; when none is left every provider has failed.
pub fn crawl_step(order: &Vec<String>, last: Option<(usize, bool)>) -> (r: CrawlStep)
    requires
        match last {
            Some((i, _)) => i < order@.len(),
            None => true,
        },
    ensures
        r == crawl_step_of(order.deep_view(), last),
{
    let len = order.len();
    let n: usize = match last {
        Some((i, true)) => return CrawlStep::Finished(i),
        Some((i, false)) => {
            assert(i < len);
            i + 1
        },
        None => 0,
    };
    if n < order.len() {
        proof {
            assert(order.deep_view()[n as int] == order@[n as int]@);
        }
        CrawlStep::Attempt(n, crawl_provider_kind(order[n].as_str()))
    } else {
        CrawlStep::AllFailed
    }
}

/// Law (crawl fallback): "scrapling" and "crawl4ai" are the supported
/// providers and every other name is unsupported; the crawl starts with
/// the first provider in order, finishes at the first one that fetched
/// the page, moves after a failure to the next one in order, and has
/// failed altogether once the last one failed.
pub proof fn law_crawl_fallback_order(order: Seq<Seq<char>>, name: Seq<char>, i: usize)
    ensures
        (crawl_kind_of(name) == CrawlProviderKind::Scrapling) <==> name == "scrapling"@,
        (crawl_kind_of(name) == CrawlProviderKind::Crawl4ai) <==> name == "crawl4ai"@,
        crawl_step_of(order, None) == if order.len() > 0 {
            CrawlStep::Attempt(0, crawl_kind_of(order[0]))
        } else {
            CrawlStep::AllFailed
        },
        i < order.len() ==> crawl_step_of(order, Some((i, true))) == CrawlStep::Finished(i),
        i + 1 < order.len() ==> crawl_step_of(order, Some((i, false))) == CrawlStep::Attempt((i + 1) as usize, crawl_kind_of(order[i + 1])),
        i + 1 == order.len() ==> crawl_step_of(order, Some((i, false))) == CrawlStep::AllFailed,
{
    reveal_strlit("scrapling");
    reveal_strlit("crawl4ai");
    assert("scrapling"@.len() != "crawl4ai"@.len());
}

} // verus!
