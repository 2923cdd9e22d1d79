//! Sitemap discovery: where `robots.txt` lies, which sitemaps it names, and
//! which links a fetched sitemap gives. Only sitemaps in plain text, one URL
//! per line, are read.

use vstd::prelude::*;
use crate::address::replace_path;
use crate::address::url_with_path;
use crate::extract::gather;
use crate::extract::get_links_from_text;
use crate::extract::line_candidates;
use crate::extract::normalize_url;
use crate::extract::normalized;
use crate::link::distinct_urls;
use crate::link::header_media;
use crate::link::Link;
use crate::link::LinkModel;
use crate::link::links_view;
use crate::link::slice_view;
use crate::media::classify_content_type;
use crate::media::ContentKind;
use crate::media::kind_of_optional;
use crate::media::text_view;
use crate::text::chars_of;
use crate::text::contains;
use crate::text::line_spans;
use crate::text::lines;
use crate::text::next_line;
use crate::text::next_token;
use crate::text::occurs_in;
use crate::text::part;
use crate::text::token_after;

verus! {

/// The URL of the `robots.txt` of the site that `url` belongs to: `url` with
/// its path replaced. `None` where `url` is no absolute URL.
pub fn robots_location(url: &str) -> (location: Option<String>)
    ensures
        text_view(location) == url_with_path(url@, "robots.txt"@),
{
    replace_path(url, "robots.txt")
}

/// The sitemap that a line of `robots.txt` names: a line that holds the word
/// `Sitemap` names the first token that follows its first nine characters,
/// which the marker `Sitemap:` and the blank after it take up.
pub open spec fn sitemap_entry(line: Seq<char>) -> Option<Seq<char>> {
    if occurs_in(line, "Sitemap"@) {
        token_after(line, 9)
    } else {
        None
    }
}

/// The links that a sequence of candidate references gives against `base`,
/// one for each candidate that is there and normalizes to something, in
/// order. A URL may come more than once.
pub open spec fn collect(candidates: Seq<Option<Seq<char>>>, base: Seq<char>) -> Seq<LinkModel>
    decreases candidates.len(),
{
    if candidates.len() == 0 {
        Seq::empty()
    } else {
        let before = collect(candidates.drop_last(), base);
        match candidates.last() {
            Some(reference) => match normalized(reference, base) {
                Some(link) => before.push(link),
                None => before,
            },
            None => before,
        }
    }
}

/// The sitemap entries of a `robots.txt`, line by line.
pub open spec fn sitemap_entries(robots: Seq<char>) -> Seq<Option<Seq<char>>> {
    lines(robots).map_values(|line: Seq<char>| sitemap_entry(line))
}

/// The sitemaps that a site's `robots.txt` names: each entry normalized
/// against the location of `robots.txt`, which is the seed's URL with its
/// path replaced, in the order of the lines. A seed that is no absolute URL
/// has none. The caller fetches each and hands the response to
/// [`crawl_sitemap`].
pub fn crawl_sitemaps(seed: &str, robots: &str) -> (sitemaps: Vec<Link>)
    ensures
        links_view(sitemaps@) == match url_with_path(seed@, "robots.txt"@) {
            Some(location) => collect(sitemap_entries(robots@), location),
            None => Seq::empty(),
        },
{
    match robots_location(seed) {
        Some(location) => sitemaps_against(location.as_str(), robots),
        None => {
            let sitemaps: Vec<Link> = Vec::new();
            assert(links_view(sitemaps@) =~= Seq::empty());
            sitemaps
        },
    }
}

/// The sitemaps that a `robots.txt` found at `base` names, each entry
/// normalized against `base`, in the order of the lines.
pub fn sitemaps_against(base: &str, robots: &str) -> (sitemaps: Vec<Link>)
    ensures
        links_view(sitemaps@) == collect(sitemap_entries(robots@), base@),
{
    let chars = chars_of(robots);
    let marker = chars_of("Sitemap");
    let mut sitemaps: Vec<Link> = Vec::new();
    let mut at: usize = 0;
    let ghost mut done: Seq<(int, int)> = Seq::empty();
    let ghost all = sitemap_entries(robots@);
    proof {
        assert(all.take(0) =~= Seq::empty());
        assert(links_view(sitemaps@) =~= Seq::empty());
        assert(done + line_spans(chars@, 0) =~= line_spans(chars@, 0));
    }
    while at < chars.len()
        invariant
            chars@ == robots@,
            marker@ == "Sitemap"@,
            all == sitemap_entries(robots@),
            at <= chars.len(),
            done.len() <= all.len(),
            done + line_spans(chars@, at as int) == line_spans(chars@, 0),
            links_view(sitemaps@) == collect(all.take(done.len() as int), base@),
        decreases chars.len() - at,
    {
        let (start, stop, next) = next_line(&chars, at);
        let line = part(&chars, start, stop);
        let entry = if contains(&line, &marker) {
            next_token(&line, 9)
        } else {
            None
        };
        proof {
            let spans = line_spans(chars@, 0);
            let n = done.len() as int;
            let rest = line_spans(chars@, next as int);
            assert(done + (seq![(start as int, stop as int)] + rest) =~= done.push(
                (start as int, stop as int),
            ) + rest);
            assert(spans[n] == (start as int, stop as int));
            assert(all.len() == spans.len());
            assert(all[n] == sitemap_entry(line@));
            assert(text_view(entry) == all[n]);
            assert(all.take(n + 1) =~= all.take(n).push(all[n]));
            assert(all.take(n + 1).drop_last() =~= all.take(n));
            done = done.push((start as int, stop as int));
        }
        if let Some(reference) = entry {
            if let Some(link) = normalize_url(reference.as_str(), base) {
                let ghost before = links_view(sitemaps@);
                sitemaps.push(link);
                proof {
                    assert(links_view(sitemaps@) =~= before.push(link@));
                }
            }
        }
        at = next;
    }
    proof {
        assert(line_spans(chars@, at as int) =~= Seq::empty());
        assert(done =~= line_spans(chars@, 0));
        assert(all.take(done.len() as int) =~= all);
    }
    sitemaps
}

/// The links of a fetched sitemap: those of its lines where the response is
/// plain text, none for any other media type or where the `Content-Type`
/// header is missing or unreadable.
pub fn crawl_sitemap(url: &str, content_type: Option<&str>, body: &str) -> (links: Vec<Link>)
    ensures
        links_view(links@) == if kind_of_optional(header_media(slice_view(content_type)))
            == ContentKind::PlainText {
            gather(line_candidates(body@), url@)
        } else {
            Seq::empty()
        },
        distinct_urls(links_view(links@)),
{
    let kind = match content_type {
        Some(header) => classify_content_type(header),
        None => ContentKind::Other,
    };
    match kind {
        ContentKind::PlainText => get_links_from_text(body, url),
        _ => {
            let links: Vec<Link> = Vec::new();
            assert(links_view(links@) =~= Seq::empty());
            links
        },
    }
}

} // verus!
