use webcrawler::address::Host;
use webcrawler::crawler::crawl_no_depth;
use webcrawler::crawler::crawl_with_depth;
use webcrawler::crawler::Crawl;
use webcrawler::crawler::Pass;
use webcrawler::crawler::Phase;
use webcrawler::launch::launch_crawler;
use webcrawler::error::CrawlError;
use webcrawler::link::Link;

fn link(url: &str) -> Link {
    Link::new_from_str(url).unwrap()
}

fn fetched(url: &str) -> Link {
    let mut l = link(url);
    l.update_from_response(Some("text/html"));
    l
}

fn only(host: &str) -> Option<Vec<Host>> {
    Some(vec![Host::Domain(host.to_string())])
}

fn urls(links: &Vec<Link>) -> Vec<String> {
    links.iter().map(|x| x.url.clone()).collect()
}

fn fetch(crawl: &mut Crawl) -> (Vec<String>, Option<String>) {
    match crawl.next_pass() {
        Pass::Fetch { links, sitemaps } => (urls(&links), sitemaps),
        _ => panic!("no pass is made"),
    }
}

fn finish(crawl: &mut Crawl) -> Vec<Link> {
    match crawl.next_pass() {
        Pass::Finished { leftover } => leftover,
        _ => panic!("the crawl is not over"),
    }
}

#[test]
fn the_first_pass_fetches_the_seed() {
    let mut crawl = crawl_with_depth(link("https://a.com/"), 2, only("a.com"), None);
    assert!(crawl.is_pending("https://a.com/"));
    let (batch, sitemaps) = fetch(&mut crawl);
    assert_eq!(batch, vec!["https://a.com/".to_string()]);
    assert_eq!(sitemaps, None);
    assert!(!crawl.is_pending("https://a.com/"));
}

#[test]
fn a_fetched_link_is_forwarded_and_recorded() {
    let mut crawl = crawl_with_depth(link("https://a.com/"), 2, only("a.com"), None);
    fetch(&mut crawl);
    let out = crawl.absorb(fetched("https://a.com/")).unwrap();
    assert_eq!(out.url, "https://a.com/");
    assert!(out.crawled);
    assert_eq!(out.content_type.unwrap().subtype, "html");
    assert!(crawl.is_crawled("https://a.com/"));
    assert!(!crawl.is_pending("https://a.com/"));
}

#[test]
fn a_failed_fetch_is_forwarded_too() {
    let mut crawl = crawl_with_depth(link("https://a.com/"), 1, only("a.com"), None);
    fetch(&mut crawl);
    let mut failed = link("https://a.com/");
    failed.crawled = true;
    let out = crawl.absorb(failed).unwrap();
    assert!(out.crawled);
    assert_eq!(out.content_type, None);
    assert!(crawl.is_crawled("https://a.com/"));
}

#[test]
fn an_allowed_link_is_queued_once() {
    let mut crawl = crawl_with_depth(link("https://a.com/"), 3, only("a.com"), None);
    fetch(&mut crawl);
    assert!(crawl.absorb(fetched("https://a.com/")).is_none() == false);
    assert!(crawl.absorb(link("https://a.com/x")).is_none());
    assert!(crawl.absorb(link("https://a.com/y")).is_none());
    assert!(crawl.absorb(link("https://a.com/x")).is_none());
    let (batch, _) = fetch(&mut crawl);
    assert_eq!(batch, vec!["https://a.com/x".to_string(), "https://a.com/y".to_string()]);
}

#[test]
fn a_crawled_url_is_not_queued_again() {
    let mut crawl = crawl_with_depth(link("https://a.com/"), 3, only("a.com"), None);
    fetch(&mut crawl);
    crawl.absorb(fetched("https://a.com/"));
    assert!(crawl.absorb(link("https://a.com/")).is_none());
    assert!(!crawl.is_pending("https://a.com/"));
    crawl.absorb(link("https://a.com/x"));
    let (batch, _) = fetch(&mut crawl);
    assert_eq!(batch, vec!["https://a.com/x".to_string()]);
    crawl.absorb(fetched("https://a.com/x"));
    crawl.absorb(link("https://a.com/"));
    crawl.absorb(link("https://a.com/x"));
    let (batch, _) = fetch(&mut crawl);
    assert!(batch.is_empty());
}

#[test]
fn a_link_outside_the_whitelist_is_emitted_as_filtered_and_never_fetched() {
    let mut crawl = crawl_with_depth(link("https://a.com/"), 3, only("a.com"), None);
    fetch(&mut crawl);
    crawl.absorb(fetched("https://a.com/"));
    let out = crawl.absorb(link("https://b.com/page")).unwrap();
    assert_eq!(out.url, "https://b.com/page");
    assert!(!out.crawled);
    assert!(crawl.is_turned_away("https://b.com/page"));
    assert!(!crawl.is_pending("https://b.com/page"));
    assert!(crawl.absorb(link("https://b.com/page")).is_none());
    let (batch, _) = fetch(&mut crawl);
    assert!(batch.is_empty());
    let (batch, _) = fetch(&mut crawl);
    assert!(batch.is_empty());
    assert!(finish(&mut crawl).is_empty());
}

#[test]
fn a_blacklisted_host_is_filtered() {
    let mut crawl = crawl_no_depth(link("https://a.com/"), None, only("b.com"));
    fetch(&mut crawl);
    assert!(crawl.absorb(link("https://b.com/x")).is_some());
    assert!(crawl.absorb(link("https://c.com/x")).is_none());
    assert!(crawl.absorb(link("mailto:someone@b.com")).is_none());
    let (batch, _) = fetch(&mut crawl);
    assert_eq!(batch, vec!["https://c.com/x".to_string(), "mailto:someone@b.com".to_string()]);
}

#[test]
fn without_a_list_every_discovered_link_is_filtered() {
    let mut crawl = crawl_no_depth(link("https://a.com/"), None, None);
    fetch(&mut crawl);
    assert!(crawl.absorb(link("https://a.com/x")).is_some());
    assert!(crawl.absorb(link("https://a.com/x")).is_none());
    assert!(finish(&mut crawl).is_empty());
}

#[test]
fn the_depth_limit_leaves_the_frontier_unfetched() {
    let mut crawl = crawl_with_depth(link("https://a.com/"), 1, only("a.com"), None);
    let (batch, _) = fetch(&mut crawl);
    assert_eq!(batch, vec!["https://a.com/".to_string()]);
    crawl.absorb(fetched("https://a.com/"));
    let mut child = link("https://a.com/one/two");
    child.contains_words = true;
    assert!(crawl.absorb(child).is_none());
    let leftover = finish(&mut crawl);
    assert_eq!(urls(&leftover), vec!["https://a.com/one/two".to_string()]);
    assert_eq!(leftover[0].depth, 2);
    assert!(!leftover[0].crawled);
    assert!(!leftover[0].contains_words);
    assert!(!crawl.is_crawled("https://a.com/one/two"));
    assert!(finish(&mut crawl).is_empty());
}

#[test]
fn depth_zero_fetches_nothing() {
    let mut crawl = crawl_with_depth(link("https://a.com/"), 0, only("a.com"), None);
    let leftover = finish(&mut crawl);
    assert_eq!(urls(&leftover), vec!["https://a.com/".to_string()]);
}

#[test]
fn a_bounded_crawl_makes_all_its_passes() {
    let mut crawl = crawl_with_depth(link("https://a.com/"), 3, only("a.com"), None);
    assert_eq!(fetch(&mut crawl).0.len(), 1);
    assert_eq!(fetch(&mut crawl).0.len(), 0);
    assert_eq!(fetch(&mut crawl).0.len(), 0);
    assert!(finish(&mut crawl).is_empty());
}

#[test]
fn an_unbounded_crawl_looks_up_sitemaps_once() {
    let mut crawl = crawl_no_depth(link("https://a.com/start"), only("a.com"), None);
    let (batch, sitemaps) = fetch(&mut crawl);
    assert_eq!(batch, vec!["https://a.com/start".to_string()]);
    assert_eq!(sitemaps, Some("https://a.com/start".to_string()));
    crawl.absorb(fetched("https://a.com/start"));
    crawl.absorb(link("https://a.com/next"));
    let (batch, sitemaps) = fetch(&mut crawl);
    assert_eq!(batch, vec!["https://a.com/next".to_string()]);
    assert_eq!(sitemaps, None);
    crawl.absorb(fetched("https://a.com/next"));
    assert!(finish(&mut crawl).is_empty());
}

#[test]
fn no_record_is_forwarded_twice_in_a_run() {
    let mut crawl = crawl_no_depth(link("https://a.com/"), only("a.com"), None);
    let mut forwarded: Vec<(String, bool)> = Vec::new();
    let site = vec![
        ("https://a.com/", vec!["https://a.com/1", "https://a.com/2", "https://b.com/"]),
        ("https://a.com/1", vec!["https://a.com/", "https://a.com/2", "https://b.com/"]),
        ("https://a.com/2", vec!["https://a.com/3", "https://c.com/", "mailto:x@a.com"]),
        ("https://a.com/3", vec!["https://a.com/1"]),
    ];
    let mut passes = 0;
    loop {
        let batch = match crawl.next_pass() {
            Pass::Fetch { links, .. } => links,
            Pass::Finished { leftover } => {
                assert!(leftover.is_empty());
                break;
            }
            Pass::Aborted(error) => panic!("{:?}", error),
        };
        passes += 1;
        for page in batch.iter() {
            let children = &site.iter().find(|(u, _)| *u == page.url).unwrap().1;
            for child in children {
                if let Some(out) = crawl.absorb(link(child)) {
                    forwarded.push((out.url.clone(), out.crawled));
                }
            }
            if let Some(out) = crawl.absorb(fetched(&page.url)) {
                forwarded.push((out.url.clone(), out.crawled));
            }
        }
    }
    assert_eq!(passes, 3);
    let mut seen = forwarded.clone();
    seen.sort();
    seen.dedup();
    assert_eq!(seen.len(), forwarded.len());
    let mut got: Vec<(String, bool)> = forwarded;
    got.sort();
    let mut want = vec![
        ("https://a.com/".to_string(), true),
        ("https://a.com/1".to_string(), true),
        ("https://a.com/2".to_string(), true),
        ("https://a.com/3".to_string(), true),
        ("https://b.com/".to_string(), false),
        ("https://c.com/".to_string(), false),
        ("mailto:x@a.com".to_string(), false),
    ];
    want.sort();
    assert_eq!(got, want);
}

#[test]
fn a_url_found_before_its_own_record_arrives_is_not_fetched_again() {
    let mut crawl = crawl_no_depth(link("https://a.com/"), only("a.com"), None);
    fetch(&mut crawl);
    assert!(crawl.is_requested("https://a.com/"));
    assert!(crawl.absorb(link("https://a.com/")).is_none());
    assert!(!crawl.is_pending("https://a.com/"));
    assert!(crawl.absorb(fetched("https://a.com/")).is_some());
    assert!(crawl.is_crawled("https://a.com/"));
    assert!(crawl.absorb(link("https://a.com/")).is_none());
    assert!(!crawl.is_pending("https://a.com/"));
    assert!(finish(&mut crawl).is_empty());
}

#[test]
fn pages_that_name_each_other_are_fetched_once_each() {
    let mut crawl = crawl_with_depth(link("https://a.com/"), 4, only("a.com"), None);
    let mut fetches: Vec<String> = Vec::new();
    let mut records: Vec<String> = Vec::new();
    loop {
        let batch = match crawl.next_pass() {
            Pass::Fetch { links, .. } => links,
            Pass::Finished { leftover } => {
                assert!(leftover.is_empty());
                break;
            }
            Pass::Aborted(error) => panic!("{:?}", error),
        };
        for page in batch.iter() {
            fetches.push(page.url.clone());
        }
        for page in batch.iter().rev() {
            for child in ["https://a.com/", "https://a.com/1", "https://a.com/2", page.url.as_str()] {
                assert!(crawl.absorb(link(child)).is_none());
            }
        }
        for page in batch.iter() {
            records.push(crawl.absorb(fetched(&page.url)).unwrap().url);
            assert!(crawl.absorb(link(&page.url)).is_none());
        }
    }
    let want = vec![
        "https://a.com/".to_string(),
        "https://a.com/1".to_string(),
        "https://a.com/2".to_string(),
    ];
    assert_eq!(fetches, want);
    assert_eq!(records, want);
}

#[test]
fn a_finished_crawl_takes_nothing_in() {
    let mut crawl = crawl_with_depth(link("https://a.com/"), 1, only("a.com"), None);
    fetch(&mut crawl);
    crawl.absorb(link("https://a.com/x"));
    assert_eq!(crawl.phase(), Phase::Running);
    assert_eq!(urls(&finish(&mut crawl)), vec!["https://a.com/x".to_string()]);
    assert_eq!(crawl.phase(), Phase::Finished);
    assert!(crawl.absorb(link("https://a.com/x")).is_none());
    assert!(crawl.absorb(link("https://b.com/")).is_none());
    assert!(crawl.absorb(fetched("https://a.com/")).is_none());
    assert!(!crawl.is_pending("https://a.com/x"));
    assert!(!crawl.is_turned_away("https://b.com/"));
    assert!(!crawl.is_crawled("https://a.com/"));
    assert!(finish(&mut crawl).is_empty());
}

#[test]
fn a_url_is_turned_away_or_queued_but_not_both() {
    let mut crawl = crawl_no_depth(link("https://a.com/"), only("a.com"), None);
    fetch(&mut crawl);
    let mut odd = link("https://a.com/x");
    odd.host = None;
    assert!(crawl.absorb(odd).is_some());
    assert!(crawl.absorb(link("https://a.com/x")).is_none());
    assert!(!crawl.is_pending("https://a.com/x"));
    assert!(crawl.absorb(link("https://a.com/y")).is_none());
    let mut other = link("https://a.com/y");
    other.host = None;
    assert!(crawl.absorb(other).is_none());
    assert!(!crawl.is_turned_away("https://a.com/y"));
    let (batch, _) = fetch(&mut crawl);
    assert_eq!(batch, vec!["https://a.com/y".to_string()]);
}

#[test]
fn a_closed_output_ends_the_run() {
    let mut crawl = crawl_no_depth(link("https://a.com/"), only("a.com"), None);
    fetch(&mut crawl);
    assert!(crawl.absorb(fetched("https://a.com/")).is_some());
    assert!(crawl.absorb(link("https://a.com/x")).is_none());
    assert_eq!(crawl.output_closed(), CrawlError::OutputClosed);
    assert!(crawl.absorb(fetched("https://a.com/y")).is_none());
    assert!(crawl.absorb(link("https://b.com/")).is_none());
    assert!(!crawl.is_crawled("https://a.com/y"));
    assert!(!crawl.is_turned_away("https://b.com/"));
    assert!(matches!(crawl.next_pass(), Pass::Aborted(CrawlError::OutputClosed)));
    assert!(matches!(crawl.next_pass(), Pass::Aborted(CrawlError::OutputClosed)));
    assert!(crawl.is_pending("https://a.com/x"));
}

#[test]
fn launching_needs_an_absolute_seed() {
    match launch_crawler("not a url", None, None, None) {
        Err(e) => {
            assert_eq!(e, CrawlError::InvalidUrl);
            assert_eq!(e.message(), "Invalid Url");
        }
        Ok(_) => panic!("launched from a seed that is no URL"),
    }
}

#[test]
fn launching_picks_the_mode_by_the_depth() {
    let mut bounded = launch_crawler("https://a.com", Some(0), only("a.com"), None).unwrap();
    assert_eq!(urls(&finish(&mut bounded)), vec!["https://a.com/".to_string()]);
    let mut unbounded = launch_crawler("https://a.com", None, only("a.com"), None).unwrap();
    let (batch, sitemaps) = fetch(&mut unbounded);
    assert_eq!(batch, vec!["https://a.com/".to_string()]);
    assert_eq!(sitemaps, Some("https://a.com/".to_string()));
}

#[test]
fn every_error_has_its_message() {
    assert_eq!(CrawlError::Whitelist.message(), "Error in reading Whitelist");
    assert_eq!(CrawlError::Blacklist.message(), "Error in reading Blacklist");
    assert_eq!(CrawlError::WordList.message(), "Error in reading Word List");
    assert_eq!(CrawlError::HttpClient.message(), "Could not build http client");
    assert_eq!(CrawlError::DnsResolver.message(), "Could not build dns resolver");
    assert_eq!(CrawlError::OutputClosed.message(), "Output Connection Closed");
    assert_eq!(CrawlError::Crawler.message(), "Something went wrong in the Crawler");
    assert_eq!(CrawlError::Io.message(), "Something Wrong with IO");
}

#[test]
fn a_seed_outside_the_policy_is_fetched_and_never_filtered() {
    for whitelist in [only("a.com"), None] {
        let mut crawl = crawl_no_depth(link("https://b.com/"), whitelist, None);
        let (batch, _) = fetch(&mut crawl);
        assert_eq!(batch, vec!["https://b.com/".to_string()]);
        assert!(crawl.absorb(link("https://b.com/")).is_none());
        assert!(crawl.absorb(fetched("https://b.com/")).unwrap().crawled);
        assert!(crawl.absorb(link("https://b.com/")).is_none());
        assert!(crawl.is_crawled("https://b.com/"));
        assert!(!crawl.is_turned_away("https://b.com/"));
        assert!(crawl.absorb(link("https://b.com/other")).is_some());
        assert!(finish(&mut crawl).is_empty());
    }
}

#[test]
fn a_fetched_record_goes_out_once() {
    let mut crawl = crawl_no_depth(link("https://a.com/"), only("a.com"), None);
    fetch(&mut crawl);
    assert!(crawl.absorb(link("https://a.com/x")).is_none());
    assert!(crawl.absorb(link("https://b.com/")).is_some());
    assert!(crawl.absorb(fetched("https://a.com/")).is_some());
    assert!(crawl.absorb(fetched("https://a.com/")).is_none());
    assert!(crawl.absorb(fetched("https://a.com/x")).is_none());
    assert!(!crawl.is_crawled("https://a.com/x"));
    assert!(crawl.is_pending("https://a.com/x"));
    assert!(crawl.absorb(fetched("https://b.com/")).is_none());
    assert!(!crawl.is_crawled("https://b.com/"));
    assert!(crawl.absorb(fetched("https://a.com/new")).is_some());
    assert!(crawl.is_crawled("https://a.com/new"));
    assert!(crawl.absorb(link("https://a.com/new")).is_none());
    let (batch, _) = fetch(&mut crawl);
    assert_eq!(batch, vec!["https://a.com/x".to_string()]);
}
