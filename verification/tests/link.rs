use webcrawler::address::Address;
use webcrawler::address::Host;
use webcrawler::link::Link;
use webcrawler::link::LinkType;
use webcrawler::media::classify_content_type;
use webcrawler::media::ContentKind;
use webcrawler::media::MediaType;

fn link(url: &str) -> Link {
    Link::new_from_str(url).unwrap()
}

#[test]
fn parsing_normalizes_the_url() {
    let l = link("HTTPS://Example.COM");
    assert_eq!(l.url, "https://example.com/");
    assert_eq!(l.host, Some(Host::Domain("example.com".to_string())));
    assert_eq!(l.depth, 1);
    assert_eq!(l.link_type, LinkType::Other);
    assert!(!l.crawled);
    assert!(!l.contains_words);
    assert_eq!(l.content_type, None);
    assert_eq!(l.ipv4, None);
    assert_eq!(l.ipv6, None);
}

#[test]
fn address_holds_the_parts_of_a_url() {
    let a = Address::parse("https://example.com/api/versions?page=2").unwrap();
    assert_eq!(a.href, "https://example.com/api/versions?page=2");
    assert_eq!(a.scheme, "https");
    assert_eq!(a.path, "/api/versions");
    assert_eq!(a.host, Some(Host::Domain("example.com".to_string())));
    assert!(Address::parse("not a url").is_none());
}

#[test]
fn ip_hosts_are_held_as_numbers() {
    assert_eq!(link("http://127.0.0.1/x").host, Some(Host::Ipv4(0x7f00_0001)));
    assert_eq!(link("http://[::1]/x").host, Some(Host::Ipv6(1)));
}

#[test]
fn depth_counts_path_segments() {
    assert_eq!(link("https://x.com/").depth, 1);
    assert_eq!(link("https://x.com/a").depth, 1);
    assert_eq!(link("https://x.com/a/b").depth, 2);
    assert_eq!(link("https://x.com/a/b/").depth, 3);
    assert_eq!(link("mailto:a@b.com").depth, 0);
}

#[test]
fn mail_and_phone_links_have_no_host() {
    let mail = link("mailto:a@b.com");
    assert_eq!(mail.link_type, LinkType::Mail);
    assert_eq!(mail.host, None);
    let phone = link("tel:+15551234");
    assert_eq!(phone.link_type, LinkType::PhoneNo);
    assert_eq!(phone.host, None);
}

#[test]
fn text_that_is_no_url_gives_no_link() {
    assert!(Link::new_from_str("/relative/path").is_none());
    assert!(Link::new_from_str("").is_none());
}

#[test]
fn new_from_url_is_fresh() {
    let a = Address::parse("tel:+6494461709").unwrap();
    let l = Link::new_from_url(&a);
    assert_eq!(l.url, "tel:+6494461709");
    assert_eq!(l.link_type, LinkType::PhoneNo);
    assert!(!l.crawled);
}

#[test]
fn new_takes_the_facts_it_is_given() {
    let a = Address::parse("https://x.com/a").unwrap();
    let l = Link::new(
        &a,
        Some("text/html; charset=utf-8"),
        Some(1),
        Some(2),
        true,
        LinkType::Mail,
        true,
    );
    assert_eq!(l.url, "https://x.com/a");
    assert_eq!(l.ipv4, Some(1));
    assert_eq!(l.ipv6, Some(2));
    assert!(l.crawled);
    assert!(l.contains_words);
    assert_eq!(l.link_type, LinkType::Mail);
    let media = l.content_type.unwrap();
    assert_eq!(media.type_, "text");
    assert_eq!(media.subtype, "html");
    assert_eq!(media.suffix, None);
    assert_eq!(media.text, "text/html; charset=utf-8");
}

#[test]
fn relative_links_resolve_against_the_base() {
    assert_eq!(
        Link::new_relative("c.png", "https://example.net/a/b.html").unwrap().url,
        "https://example.net/a/c.png"
    );
    assert_eq!(
        Link::new_relative("//eve.com/b", "https://alice.com/a").unwrap().url,
        "https://eve.com/b"
    );
    assert!(Link::new_relative("x", "not a base").is_none());
    assert!(Link::new_relative("x", "mailto:a@b.com").is_none());
}

#[test]
fn whitelist_allows_only_listed_hosts() {
    let allowed = Some(vec![Host::Domain("a.com".to_string())]);
    assert!(link("https://a.com/x").should_crawl(&allowed, &None));
    assert!(!link("https://b.com/x").should_crawl(&allowed, &None));
    assert!(!link("mailto:x@a.com").should_crawl(&allowed, &None));
}

#[test]
fn whitelist_comes_before_blacklist() {
    let list = Some(vec![Host::Domain("a.com".to_string())]);
    assert!(link("https://a.com/x").should_crawl(&list, &list));
    assert!(!link("https://b.com/x").should_crawl(&list, &list));
}

#[test]
fn blacklist_denies_only_listed_hosts() {
    let denied = Some(vec![Host::Domain("a.com".to_string())]);
    assert!(!link("https://a.com/x").should_crawl(&None, &denied));
    assert!(link("https://b.com/x").should_crawl(&None, &denied));
    assert!(link("mailto:x@a.com").should_crawl(&None, &denied));
}

#[test]
fn no_list_allows_nothing() {
    assert!(!link("https://a.com/x").should_crawl(&None, &None));
    assert!(!link("mailto:x@a.com").should_crawl(&None, &None));
}

#[test]
fn a_domain_is_not_an_address() {
    let allowed = Some(vec![Host::Ipv4(0x0102_0304)]);
    assert!(link("http://1.2.3.4/").should_crawl(&allowed, &None));
    assert!(!link("http://1.2.3.5/").should_crawl(&allowed, &None));
    let named = Some(vec![Host::Domain("1.2.3.4".to_string())]);
    assert!(!link("http://1.2.3.4/").should_crawl(&named, &None));
}

#[test]
fn update_dns_changes_only_the_addresses() {
    let mut l = link("https://a.com/x");
    l.update_dns(Some(0x0a00_0001), None);
    assert_eq!(l.ipv4, Some(0x0a00_0001));
    assert_eq!(l.ipv6, None);
    assert_eq!(l.url, "https://a.com/x");
    assert!(!l.crawled);
    l.update_dns(None, Some(7));
    assert_eq!(l.ipv4, None);
    assert_eq!(l.ipv6, Some(7));
}

#[test]
fn a_response_marks_the_link_as_crawled() {
    let mut l = link("https://a.com/x");
    l.update_from_response(Some("Text/HTML"));
    assert!(l.crawled);
    assert_eq!(l.content_type.as_ref().unwrap().text, "text/html");
    assert_eq!(l.content_kind(), ContentKind::Html);
    assert_eq!(l.url, "https://a.com/x");
}

#[test]
fn a_malformed_header_gives_no_media_type() {
    let mut l = link("https://a.com/x");
    l.update_from_response(Some("no slash here"));
    assert!(l.crawled);
    assert_eq!(l.content_type, None);
    assert_eq!(l.content_kind(), ContentKind::Other);
    let mut m = link("https://a.com/y");
    m.update_from_response(None);
    assert!(m.crawled);
    assert_eq!(m.content_type, None);
}

#[test]
fn media_types_match_by_essence() {
    let html = MediaType::parse("text/html").unwrap();
    let plain = MediaType::parse("text/plain").unwrap();
    let mut l = link("https://a.com/x");
    assert!(!l.check_mime_from_list(&vec![html.clone()]));
    l.update_from_response(Some("text/html; charset=iso-8859-1"));
    assert!(l.check_mime_from_list(&vec![plain.clone(), html.clone()]));
    assert!(!l.check_mime_from_list(&vec![plain]));
    assert!(!l.check_mime_from_list(&vec![]));
}

#[test]
fn content_types_are_classified() {
    assert_eq!(classify_content_type("text/html"), ContentKind::Html);
    assert_eq!(classify_content_type("text/html; charset=utf-8"), ContentKind::Html);
    assert_eq!(classify_content_type("TEXT/HTML;charset=UTF-8"), ContentKind::Html);
    assert_eq!(classify_content_type("text/plain"), ContentKind::PlainText);
    assert_eq!(classify_content_type("text/plain; charset=utf-8"), ContentKind::PlainText);
    assert_eq!(classify_content_type("application/json"), ContentKind::Other);
    assert_eq!(classify_content_type("application/xhtml+xml"), ContentKind::Other);
    assert_eq!(classify_content_type("text/html+xml"), ContentKind::Other);
    assert_eq!(classify_content_type("garbage"), ContentKind::Other);
    assert_eq!(classify_content_type(""), ContentKind::Other);
}

#[test]
fn media_type_keeps_its_suffix_apart() {
    let svg = MediaType::parse("image/svg+xml").unwrap();
    assert_eq!(svg.type_, "image");
    assert_eq!(svg.subtype, "svg");
    assert_eq!(svg.suffix, Some("xml".to_string()));
    assert!(!svg.same_essence(&MediaType::parse("image/svg").unwrap()));
    assert!(svg.same_essence(&MediaType::parse("IMAGE/SVG+XML; q=1").unwrap()));
}

#[test]
fn links_are_equal_by_url_alone() {
    let a = link("https://a.com/x");
    let mut b = link("https://a.com/x");
    b.update_from_response(Some("text/html"));
    b.update_dns(Some(1), Some(2));
    assert!(a == b);
    assert!(a != link("https://a.com/y"));
}

#[test]
fn unfetched_keeps_the_identity_only() {
    let mut l = link("https://a.com/x/y");
    l.update_from_response(Some("text/html"));
    l.update_dns(Some(1), Some(2));
    l.contains_words = true;
    let u = l.unfetched();
    assert_eq!(u.url, "https://a.com/x/y");
    assert_eq!(u.host, Some(Host::Domain("a.com".to_string())));
    assert_eq!(u.depth, 2);
    assert_eq!(u.link_type, LinkType::Other);
    assert_eq!(u.content_type, None);
    assert_eq!(u.ipv4, None);
    assert_eq!(u.ipv6, None);
    assert!(!u.crawled);
    assert!(!u.contains_words);
}
