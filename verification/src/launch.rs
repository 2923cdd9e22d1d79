//! Starting a crawl from what the command line gives.

use vstd::prelude::*;
use crate::address::Host;
use crate::crawler::Crawl;
use crate::crawler::crawl_no_depth;
use crate::crawler::crawl_with_depth;
use crate::crawler::initial;
use crate::error::CrawlError;
use crate::link::Link;
use crate::link::link_from_text;
use crate::link::list_view;

verus! {

/// The number of passes of a crawl, as a natural number.
pub open spec fn passes_view(depth: Option<usize>) -> Option<nat> {
    match depth {
        Some(passes) => Some(passes as nat),
        None => None,
    }
}

/// Starts the crawl that the options ask for: depth-bounded where a depth is
/// given, unbounded where none is. A seed that is no absolute URL is the
/// only error, and it is reported before anything is fetched.
pub fn launch_crawler(
    origin_url: &str,
    depth: Option<usize>,
    whitelist: Option<Vec<Host>>,
    blacklist: Option<Vec<Host>>,
) -> (launched: Result<Crawl, CrawlError>)
    ensures
        match launched {
            Ok(crawl) => link_from_text(origin_url@) matches Some(seed) && crawl.wf() && crawl@
                == initial(seed, passes_view(depth), list_view(whitelist), list_view(blacklist)),
            Err(error) => error == CrawlError::InvalidUrl && link_from_text(origin_url@) is None,
        },
{
    let origin_url = match Link::new_from_str(origin_url) {
        Some(x) => x,
        None => return Err(CrawlError::InvalidUrl),
    };
    match depth {
        None => Ok(crawl_no_depth(origin_url, whitelist, blacklist)),
        Some(x) => Ok(crawl_with_depth(origin_url, x, whitelist, blacklist)),
    }
}

} // verus!
