use webcrawler::address::Host;
use webcrawler::link::Link;
use webcrawler::page::crawl_page;
use webcrawler::page::succeeded;
use webcrawler::page::PageAction;
use webcrawler::page::PageEvent;
use webcrawler::page::PageReport;
use webcrawler::page::Stage;

fn link(url: &str) -> Link {
    Link::new_from_str(url).unwrap()
}

fn report(action: PageAction) -> PageReport {
    match action {
        PageAction::Finish(report) => report,
        other => panic!("the page is not done: {:?}", other),
    }
}

fn words(list: &[&str]) -> Vec<String> {
    list.iter().map(|x| x.to_string()).collect()
}

#[test]
fn a_page_starts_unfetched() {
    let mut seed = link("https://a.com/x");
    seed.crawled = true;
    seed.contains_words = true;
    let page = crawl_page(&seed);
    assert_eq!(page.stage, Stage::Fetching);
    assert_eq!(page.link.url, "https://a.com/x");
    assert!(!page.link.crawled);
    assert!(!page.link.contains_words);
}

#[test]
fn a_failed_request_ends_the_page() {
    let mut page = crawl_page(&link("https://a.com/x"));
    let r = report(page.step(PageEvent::Failed, &words(&["x"])));
    assert!(r.link.crawled);
    assert_eq!(r.link.content_type, None);
    assert_eq!(r.link.ipv4, None);
    assert!(r.children.is_empty());
    assert_eq!(r.screenshot, None);
    assert_eq!(page.stage, Stage::Done);
}

#[test]
fn an_html_page_is_resolved_read_and_searched() {
    let mut page = crawl_page(&link("https://t.com/home/"));
    let list = words(&["sample"]);
    match page.step(PageEvent::Response(200, Some("text/html; charset=utf-8".to_string())), &list) {
        PageAction::Resolve(host) => assert_eq!(host, Host::Domain("t.com".to_string())),
        other => panic!("{:?}", other),
    }
    assert_eq!(page.stage, Stage::Resolving);
    assert!(page.link.crawled);
    match page.step(PageEvent::Resolved(Some(0x0a00_0001), None), &list) {
        PageAction::ReadBody => {}
        other => panic!("{:?}", other),
    }
    assert_eq!(page.stage, Stage::Reading);
    let body = "<p>a sample page</p><a href='/x.html'></a><a href='#f'></a><a href='y.html'></a><a href='https://t2.com'></a><a href='/x.html'></a>";
    let r = report(page.step(PageEvent::Body(body.to_string()), &list));
    assert_eq!(page.stage, Stage::Done);
    assert!(r.link.crawled);
    assert!(r.link.contains_words);
    assert_eq!(r.link.ipv4, Some(0x0a00_0001));
    assert_eq!(r.link.ipv6, None);
    assert_eq!(r.screenshot, Some("https://t.com/home/".to_string()));
    let urls: Vec<String> = r.children.iter().map(|x| x.url.clone()).collect();
    assert_eq!(
        urls,
        vec![
            "https://t.com/x.html".to_string(),
            "https://t.com/home/y.html".to_string(),
            "https://t2.com/".to_string(),
        ]
    );
    assert!(r.children.iter().all(|x| !x.crawled));
}

#[test]
fn a_page_without_trigger_words_takes_no_screenshot() {
    let mut page = crawl_page(&link("https://t.com/"));
    let list = words(&["absent"]);
    page.step(PageEvent::Response(200, Some("text/html".to_string())), &list);
    page.step(PageEvent::Resolved(None, None), &list);
    let r = report(page.step(PageEvent::Body("<a href='a'>present</a>".to_string()), &list));
    assert!(!r.link.contains_words);
    assert_eq!(r.screenshot, None);
    assert_eq!(r.children.len(), 1);
}

#[test]
fn an_empty_word_list_finds_nothing() {
    let mut page = crawl_page(&link("https://t.com/"));
    let list = words(&[]);
    page.step(PageEvent::Response(200, Some("text/html".to_string())), &list);
    page.step(PageEvent::Resolved(None, None), &list);
    let r = report(page.step(PageEvent::Body("anything".to_string()), &list));
    assert!(!r.link.contains_words);
    assert_eq!(r.screenshot, None);
}

#[test]
fn a_page_that_is_no_html_is_not_read() {
    let mut page = crawl_page(&link("https://t.com/data.json"));
    let list = words(&["x"]);
    page.step(PageEvent::Response(200, Some("application/json".to_string())), &list);
    let r = report(page.step(PageEvent::Resolved(None, Some(1)), &list));
    assert!(r.link.crawled);
    assert_eq!(r.link.ipv6, Some(1));
    assert_eq!(r.link.content_type.unwrap().subtype, "json");
    assert!(r.children.is_empty());
}

#[test]
fn a_link_without_host_is_not_resolved() {
    let mut page = crawl_page(&link("mailto:a@b.com"));
    let r = report(page.step(PageEvent::Response(204, None), &words(&[])));
    assert!(r.link.crawled);
    assert_eq!(r.link.content_type, None);
    assert!(r.children.is_empty());
}

#[test]
fn an_unreadable_body_still_reports_the_link() {
    let mut page = crawl_page(&link("https://t.com/"));
    let list = words(&["x"]);
    page.step(PageEvent::Response(200, Some("text/html".to_string())), &list);
    page.step(PageEvent::Resolved(Some(5), None), &list);
    let r = report(page.step(PageEvent::Unreadable, &list));
    assert!(r.link.crawled);
    assert_eq!(r.link.ipv4, Some(5));
    assert!(r.children.is_empty());
    assert_eq!(r.screenshot, None);
}

#[test]
fn an_event_out_of_turn_ends_the_page() {
    let mut page = crawl_page(&link("https://t.com/"));
    let r = report(page.step(PageEvent::Body("<a href='x'></a>".to_string()), &words(&[])));
    assert!(!r.link.crawled);
    assert!(r.children.is_empty());
    assert_eq!(page.stage, Stage::Done);
    let again = report(page.step(PageEvent::Failed, &words(&[])));
    assert!(!again.link.crawled);
}

#[test]
fn a_status_that_is_no_success_ends_the_page() {
    for status in [100u16, 199, 300, 301, 304, 404, 500, 600] {
        let mut page = crawl_page(&link("https://t.com/"));
        let r = report(page.step(PageEvent::Response(status, Some("text/html".to_string())), &words(&["x"])));
        assert!(r.link.crawled);
        assert_eq!(r.link.content_type, None);
        assert!(r.children.is_empty());
        assert_eq!(page.stage, Stage::Done);
    }
    for status in [200u16, 201, 299] {
        let mut page = crawl_page(&link("https://t.com/"));
        match page.step(PageEvent::Response(status, Some("text/html".to_string())), &words(&[])) {
            PageAction::Resolve(_) => {}
            other => panic!("{:?}", other),
        }
        assert!(succeeded(status));
    }
    assert!(!succeeded(199));
    assert!(!succeeded(300));
}
