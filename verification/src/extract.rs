//! Link extraction: from the anchors of an HTML page, from a text with one
//! URL per line, and the search for trigger words.

use vstd::prelude::*;
use crate::link::distinct_urls;
use crate::link::has_url;
use crate::link::holds_url;
use crate::link::Link;
use crate::link::link_from_reference;
use crate::link::link_from_text;
use crate::link::link_view;
use crate::link::LinkModel;
use crate::link::links_view;
use crate::media::text_view;
use crate::text::chars_of;
use crate::text::contains;
use crate::text::find;
use crate::text::find_back;
use crate::text::lemma_trim_span;
use crate::text::line_spans;
use crate::text::lines;
use crate::text::next_line;
use crate::text::occurs_in;
use crate::text::text_of;
use crate::text::trim;

verus! {

/// What a reference found in a page at `base` points at. A reference that
/// starts with `#` stays inside the page and gives nothing. Any other is read
/// as an absolute URL and, where that fails, resolved against `base`.
pub open spec fn normalized(reference: Seq<char>, base: Seq<char>) -> Option<LinkModel> {
    if reference.len() > 0 && reference[0] == '#' {
        None
    } else {
        match link_from_text(reference) {
            Some(link) => Some(link),
            None => link_from_reference(reference, base),
        }
    }
}

/// Turns a reference found in a page into a link, or drops it.
pub fn normalize_url(url: &str, base_url: &str) -> (link: Option<Link>)
    ensures
        link_view(link) == normalized(url@, base_url@),
{
    if !url.is_empty() && url.get_char(0) == '#' {
        return None;
    }
    match Link::new_from_str(url) {
        Some(x) => Some(x),
        None => Link::new_relative(url, base_url),
    }
}

/// The links that a sequence of candidate references gives against `base`, in
/// the order in which each URL first appears. A missing candidate and one
/// that normalizes to nothing are passed over, and so is one whose URL has
/// been seen before.
pub open spec fn gather(candidates: Seq<Option<Seq<char>>>, base: Seq<char>) -> Seq<LinkModel>
    decreases candidates.len(),
{
    if candidates.len() == 0 {
        Seq::empty()
    } else {
        let before = gather(candidates.drop_last(), base);
        match candidates.last() {
            Some(reference) => match normalized(reference, base) {
                Some(link) => if has_url(before, link.url) {
                    before
                } else {
                    before.push(link)
                },
                None => before,
            },
            None => before,
        }
    }
}

/// What gathering makes of one more candidate.
pub proof fn lemma_gather_push(
    candidates: Seq<Option<Seq<char>>>,
    next: Option<Seq<char>>,
    base: Seq<char>,
)
    ensures
        gather(candidates.push(next), base) == match next {
            Some(reference) => match normalized(reference, base) {
                Some(link) => if has_url(gather(candidates, base), link.url) {
                    gather(candidates, base)
                } else {
                    gather(candidates, base).push(link)
                },
                None => gather(candidates, base),
            },
            None => gather(candidates, base),
        },
{
    assert(candidates.push(next).drop_last() =~= candidates);
}

/// Gathered links never share a URL.
pub proof fn lemma_gather_distinct(candidates: Seq<Option<Seq<char>>>, base: Seq<char>)
    ensures
        distinct_urls(gather(candidates, base)),
    decreases candidates.len(),
{
    if candidates.len() > 0 {
        lemma_gather_distinct(candidates.drop_last(), base);
    }
}

/// Adds what `candidate` gives to `links`, unless its URL is there already.
fn gather_one(links: &mut Vec<Link>, candidate: &str, base: &str)
    ensures
        links_view(final(links)@) == match normalized(candidate@, base@) {
            Some(link) => if has_url(links_view(old(links)@), link.url) {
                links_view(old(links)@)
            } else {
                links_view(old(links)@).push(link)
            },
            None => links_view(old(links)@),
        },
{
    if let Some(link) = normalize_url(candidate, base) {
        if !holds_url(links, link.url.as_str()) {
            links.push(link);
            assert(links_view(links@) =~= links_view(old(links)@).push(link@));
        }
    }
}

/// For each element named `element` of the document that the `select` crate
/// builds from `html`, in document order, the value of its attribute
/// `attribute`, or `None` where it has none.
pub uninterp spec fn html_attributes(
    html: Seq<char>,
    element: Seq<char>,
    attribute: Seq<char>,
) -> Seq<Option<Seq<char>>>;

/// The references of a page: the `href` of each of its `a` elements.
pub open spec fn html_anchor_hrefs(html: Seq<char>) -> Seq<Option<Seq<char>>> {
    html_attributes(html, "a"@, "href"@)
}

/// The texts of a list of optional strings.
pub open spec fn hrefs_view(hrefs: Seq<Option<String>>) -> Seq<Option<Seq<char>>> {
    hrefs.map_values(|href: Option<String>| text_view(href))
}

/// Reads one attribute of every element of a name in an HTML document.
///
/// Trusted: calls `select::document::Document::from`, `Document::find` with
/// the predicate `Name(element)`, and `Node::attr(attribute)` on each node
/// found. The contract only gives the outcome its name, [`html_attributes`].
/// The crate walks the parsed tree recursively, so the stack that a call
/// needs grows with the nesting of the document.
#[verifier::external_body]
pub(crate) fn element_attributes(html: &str, element: &str, attribute: &str) -> (values: Vec<
    Option<String>,
>)
    ensures
        hrefs_view(values@) == html_attributes(html@, element@, attribute@),
{
    select::document::Document::from(html)
        .find(select::predicate::Name(element))
        .map(|node| node.attr(attribute).map(|value| value.to_string()))
        .collect()
}

/// The links that a list of anchor references gives against the page's URL.
pub fn links_from_hrefs(hrefs: &Vec<Option<String>>, url: &str) -> (links: Vec<Link>)
    ensures
        links_view(links@) == gather(hrefs_view(hrefs@), url@),
        distinct_urls(links_view(links@)),
{
    let mut links: Vec<Link> = Vec::new();
    let mut i: usize = 0;
    assert(hrefs_view(hrefs@).take(0) =~= Seq::empty());
    assert(links_view(links@) =~= Seq::empty());
    while i < hrefs.len()
        invariant
            i <= hrefs.len(),
            links_view(links@) == gather(hrefs_view(hrefs@).take(i as int), url@),
        decreases hrefs.len() - i,
    {
        proof {
            let all = hrefs_view(hrefs@);
            assert(all.take(i + 1) =~= all.take(i as int).push(all[i as int]));
            lemma_gather_push(all.take(i as int), all[i as int], url@);
        }
        if let Some(href) = &hrefs[i] {
            gather_one(&mut links, href.as_str(), url);
        }
        i += 1;
    }
    proof {
        assert(hrefs_view(hrefs@).take(hrefs.len() as int) =~= hrefs_view(hrefs@));
        lemma_gather_distinct(hrefs_view(hrefs@), url@);
    }
    links
}

/// The links of an HTML page: the `href` of each anchor, normalized against
/// the page's URL, each URL once.
pub fn get_links_from_html(html: &str, url: &str) -> (links: Vec<Link>)
    ensures
        links_view(links@) == gather(html_anchor_hrefs(html@), url@),
        distinct_urls(links_view(links@)),
{
    let hrefs = element_attributes(html, "a", "href");
    links_from_hrefs(&hrefs, url)
}

/// The candidate references of a text: each line, trimmed.
pub open spec fn line_candidates(text: Seq<char>) -> Seq<Option<Seq<char>>> {
    lines(text).map_values(|line: Seq<char>| Some(trim(line)))
}

/// The links of a text that holds one reference per line: each line, trimmed
/// and normalized against `url`, each URL once.
pub fn get_links_from_text(text: &str, url: &str) -> (links: Vec<Link>)
    ensures
        links_view(links@) == gather(line_candidates(text@), url@),
        distinct_urls(links_view(links@)),
{
    let chars = chars_of(text);
    let mut links: Vec<Link> = Vec::new();
    let mut at: usize = 0;
    let ghost mut done: Seq<(int, int)> = Seq::empty();
    let ghost all = line_candidates(text@);
    proof {
        assert(all.take(0) =~= Seq::empty());
        assert(links_view(links@) =~= Seq::empty());
        assert(done + line_spans(chars@, 0) =~= line_spans(chars@, 0));
    }
    while at < chars.len()
        invariant
            chars@ == text@,
            all == line_candidates(text@),
            at <= chars.len(),
            done.len() <= all.len(),
            done + line_spans(chars@, at as int) == line_spans(chars@, 0),
            links_view(links@) == gather(all.take(done.len() as int), url@),
        decreases chars.len() - at,
    {
        let (start, stop, next) = next_line(&chars, at);
        let from = find(&chars, start, stop, false);
        let to = find_back(&chars, from, stop);
        let line = text_of(&chars, from, to);
        proof {
            let spans = line_spans(chars@, 0);
            let n = done.len() as int;
            let rest = line_spans(chars@, next as int);
            assert(done + (seq![(start as int, stop as int)] + rest) =~= done.push(
                (start as int, stop as int),
            ) + rest);
            assert(spans[n] == (start as int, stop as int));
            assert(all.len() == spans.len());
            assert(all[n] == Some(trim(chars@.subrange(start as int, stop as int))));
            lemma_trim_span(chars@, start as int, stop as int);
            assert(all[n] == Some(line@));
            assert(all.take(n + 1) =~= all.take(n).push(all[n]));
            lemma_gather_push(all.take(n), all[n], url@);
            done = done.push((start as int, stop as int));
        }
        gather_one(&mut links, line.as_str(), url);
        at = next;
    }
    proof {
        assert(line_spans(chars@, at as int) =~= Seq::empty());
        assert(done =~= line_spans(chars@, 0));
        assert(all.take(done.len() as int) =~= all);
        lemma_gather_distinct(all, url@);
    }
    links
}

/// Some word of `words` stands in `text`.
pub open spec fn any_word_in(text: Seq<char>, words: Seq<String>) -> bool {
    exists|i: int| 0 <= i < words.len() && occurs_in(text, (#[trigger] words[i])@)
}

/// Whether a page holds one of the trigger words, each taken literally.
pub fn check_words_html(html: &str, word_list: &Vec<String>) -> (found: bool)
    ensures
        found == any_word_in(html@, word_list@),
{
    if word_list.len() == 0 {
        return false;
    }
    let page = chars_of(html);
    let mut i: usize = 0;
    while i < word_list.len()
        invariant
            i <= word_list.len(),
            page@ == html@,
            forall|j: int| 0 <= j < i ==> !occurs_in(html@, (#[trigger] word_list@[j])@),
        decreases word_list.len() - i,
    {
        let word = chars_of(word_list[i].as_str());
        if contains(&page, &word) {
            return true;
        }
        i += 1;
    }
    false
}

} // verus!
