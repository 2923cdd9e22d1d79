//! Fetching and classifying one page, as a state machine. The caller does the
//! network work that each step asks for and reports what came of it; the
//! machine enriches the link and decides what is asked next.

use vstd::prelude::*;
use crate::address::Host;
use crate::address::HostModel;
use crate::extract::any_word_in;
use crate::extract::check_words_html;
use crate::extract::gather;
use crate::extract::get_links_from_html;
use crate::extract::html_anchor_hrefs;
use crate::link::distinct_urls;
use crate::link::header_media;
use crate::link::Link;
use crate::link::LinkModel;
use crate::link::same_identity;
use crate::link::links_view;
use crate::link::unfetched;
use crate::media::ContentKind;
use crate::media::kind_of_optional;
use crate::media::text_view;

verus! {

/// How far the work on a page has come.
#[derive(Clone, Copy, Debug, PartialEq, Eq, Structural)]
pub enum Stage {
    /// The request is under way.
    Fetching,
    /// The host's addresses are being resolved.
    Resolving,
    /// The body is being read.
    Reading,
    /// The report has been made.
    Done,
}

/// The work on one page.
#[derive(Debug)]
pub struct PageCrawl {
    /// The link with what has been learned so far.
    pub link: Link,
    /// What the machine waits for.
    pub stage: Stage,
}

/// What a [`PageCrawl`] stands for.
pub struct PageModel {
    pub link: LinkModel,
    pub stage: Stage,
}

impl View for PageCrawl {
    type V = PageModel;

    open spec fn view(&self) -> PageModel {
        PageModel { link: self.link@, stage: self.stage }
    }
}

/// What the caller reports.
#[derive(Debug)]
pub enum PageEvent {
    /// The request failed: no response came.
    Failed,
    /// A response came, with this status code and with this `Content-Type`
    /// header if it had a readable one.
    Response(u16, Option<String>),
    /// What the resolver found for the host, each address if it found one.
    Resolved(Option<u32>, Option<u128>),
    /// The body could not be read.
    Unreadable,
    /// The body, as text.
    Body(String),
}

/// What a [`PageEvent`] stands for.
pub enum PageEventModel {
    Failed,
    Response(u16, Option<Seq<char>>),
    Resolved(Option<u32>, Option<u128>),
    Unreadable,
    Body(Seq<char>),
}

impl View for PageEvent {
    type V = PageEventModel;

    open spec fn view(&self) -> PageEventModel {
        match self {
            PageEvent::Failed => PageEventModel::Failed,
            PageEvent::Response(status, header) => PageEventModel::Response(
                *status,
                text_view(*header),
            ),
            PageEvent::Resolved(ipv4, ipv6) => PageEventModel::Resolved(*ipv4, *ipv6),
            PageEvent::Unreadable => PageEventModel::Unreadable,
            PageEvent::Body(text) => PageEventModel::Body(text@),
        }
    }
}

/// What came of a page.
#[derive(Debug)]
pub struct PageReport {
    /// The fetched link, to be sent on after its children.
    pub link: Link,
    /// The links found in the page, each URL once, as newly discovered.
    pub children: Vec<Link>,
    /// The page's URL, for the screenshot channel, if a trigger word was found.
    pub screenshot: Option<String>,
}

/// What a [`PageReport`] stands for.
pub struct ReportModel {
    pub link: LinkModel,
    pub children: Seq<LinkModel>,
    pub screenshot: Option<Seq<char>>,
}

impl View for PageReport {
    type V = ReportModel;

    open spec fn view(&self) -> ReportModel {
        ReportModel {
            link: self.link@,
            children: links_view(self.children@),
            screenshot: text_view(self.screenshot),
        }
    }
}

/// What the caller does next.
#[derive(Debug)]
pub enum PageAction {
    /// Resolve this host's IPv4 and IPv6 addresses, each on its own, and
    /// report `Resolved`.
    Resolve(Host),
    /// Read the body as text and report `Body` or `Unreadable`.
    ReadBody,
    /// The page is done: send on the children, then the link.
    Finish(PageReport),
}

/// What a [`PageAction`] stands for.
pub enum ActionModel {
    Resolve(HostModel),
    ReadBody,
    Finish(ReportModel),
}

impl View for PageAction {
    type V = ActionModel;

    open spec fn view(&self) -> ActionModel {
        match self {
            PageAction::Resolve(host) => ActionModel::Resolve(host@),
            PageAction::ReadBody => ActionModel::ReadBody,
            PageAction::Finish(report) => ActionModel::Finish(report@),
        }
    }
}

/// A status code that reports success: one from 200 to 299.
pub open spec fn is_success(status: u16) -> bool {
    200 <= status <= 299
}

/// Whether a status code reports success.
pub fn succeeded(status: u16) -> (success: bool)
    ensures
        success == is_success(status),
{
    200 <= status && status <= 299
}

/// The report of a page of which nothing was read.
pub open spec fn bare(link: LinkModel) -> ReportModel {
    ReportModel { link, children: Seq::empty(), screenshot: None }
}

/// What is asked once the addresses are settled: the body of an HTML page,
/// nothing more of any other.
pub open spec fn ask_body(link: LinkModel) -> (PageModel, ActionModel) {
    if kind_of_optional(link.content_type) == ContentKind::Html {
        (PageModel { link, stage: Stage::Reading }, ActionModel::ReadBody)
    } else {
        (PageModel { link, stage: Stage::Done }, ActionModel::Finish(bare(link)))
    }
}

/// What is asked once the response is in: the addresses of a link that has a
/// host, else what follows them.
pub open spec fn ask_addresses(link: LinkModel) -> (PageModel, ActionModel) {
    match link.host {
        Some(host) => (PageModel { link, stage: Stage::Resolving }, ActionModel::Resolve(host)),
        None => ask_body(link),
    }
}

/// The report of an HTML page whose body was read: the link knows whether a
/// trigger word stands in the body, the children are the page's anchors
/// against its own URL, and the URL goes to the screenshot channel where a
/// word was found.
pub open spec fn read(link: LinkModel, body: Seq<char>, words: Seq<String>) -> ReportModel {
    let found = any_word_in(body, words);
    ReportModel {
        link: LinkModel { contains_words: found, ..link },
        children: gather(html_anchor_hrefs(body), link.url),
        screenshot: if found {
            Some(link.url)
        } else {
            None
        },
    }
}

/// The next state and what is asked of the caller, for every state and event.
///
/// A request that failed, and a response whose status is no success, mark
/// the link as crawled and end the page. A successful response records the
/// media type and marks the link as crawled. An event that the stage does not
/// wait for ends the page with what is known.
pub open spec fn step(page: PageModel, event: PageEventModel, words: Seq<String>) -> (
    PageModel,
    ActionModel,
) {
    let link = page.link;
    match (page.stage, event) {
        (Stage::Fetching, PageEventModel::Failed) => {
            let failed = LinkModel { crawled: true, ..link };
            (PageModel { link: failed, stage: Stage::Done }, ActionModel::Finish(bare(failed)))
        },
        (Stage::Fetching, PageEventModel::Response(status, header)) => if is_success(status) {
            ask_addresses(LinkModel { content_type: header_media(header), crawled: true, ..link })
        } else {
            let failed = LinkModel { crawled: true, ..link };
            (PageModel { link: failed, stage: Stage::Done }, ActionModel::Finish(bare(failed)))
        },
        (Stage::Resolving, PageEventModel::Resolved(ipv4, ipv6)) => ask_body(
            LinkModel { ipv4, ipv6, ..link },
        ),
        (Stage::Reading, PageEventModel::Body(body)) => {
            let report = read(link, body, words);
            (PageModel { link: report.link, stage: Stage::Done }, ActionModel::Finish(report))
        },
        _ => (PageModel { link, stage: Stage::Done }, ActionModel::Finish(bare(link))),
    }
}

/// Starts the work on the page that `link` points at. The caller requests
/// the link's URL and reports `Response`, whatever the status, or `Failed`.
pub fn crawl_page(link: &Link) -> (page: PageCrawl)
    ensures
        page@ == (PageModel { link: unfetched(link@), stage: Stage::Fetching }),
{
    PageCrawl { link: link.unfetched(), stage: Stage::Fetching }
}

impl PageCrawl {
    fn finish(&mut self) -> (action: PageAction)
        ensures
            final(self)@ == (PageModel { link: old(self)@.link, stage: Stage::Done }),
            action@ == ActionModel::Finish(bare(old(self)@.link)),
    {
        self.stage = Stage::Done;
        let children: Vec<Link> = Vec::new();
        assert(links_view(children@) =~= Seq::empty());
        PageAction::Finish(PageReport { link: self.link.clone(), children, screenshot: None })
    }

    fn ask_body(&mut self) -> (action: PageAction)
        ensures
            (final(self)@, action@) == ask_body(old(self)@.link),
    {
        match self.link.content_kind() {
            ContentKind::Html => {
                self.stage = Stage::Reading;
                PageAction::ReadBody
            },
            _ => self.finish(),
        }
    }

    fn ask_addresses(&mut self) -> (action: PageAction)
        ensures
            (final(self)@, action@) == ask_addresses(old(self)@.link),
    {
        let host = match &self.link.host {
            Some(host) => Some(host.clone()),
            None => None,
        };
        match host {
            Some(host) => {
                self.stage = Stage::Resolving;
                PageAction::Resolve(host)
            },
            None => self.ask_body(),
        }
    }

    /// Takes in what the caller reports and says what to do next.
    pub fn step(&mut self, event: PageEvent, words: &Vec<String>) -> (action: PageAction)
        ensures
            (final(self)@, action@) == step(old(self)@, event@, words@),
            action@ matches ActionModel::Finish(report) ==> distinct_urls(report.children),
    {
        match (self.stage, event) {
            (Stage::Fetching, PageEvent::Failed) => {
                self.link.crawled = true;
                self.finish()
            },
            (Stage::Fetching, PageEvent::Response(status, header)) => {
                if succeeded(status) {
                    match &header {
                        Some(text) => self.link.update_from_response(Some(text.as_str())),
                        None => self.link.update_from_response(None),
                    }
                    self.ask_addresses()
                } else {
                    self.link.crawled = true;
                    self.finish()
                }
            },
            (Stage::Resolving, PageEvent::Resolved(ipv4, ipv6)) => {
                self.link.update_dns(ipv4, ipv6);
                self.ask_body()
            },
            (Stage::Reading, PageEvent::Body(body)) => {
                let found = check_words_html(body.as_str(), words);
                self.link.contains_words = found;
                let children = get_links_from_html(body.as_str(), self.link.url.as_str());
                let screenshot = if found {
                    Some(self.link.url.clone())
                } else {
                    None
                };
                self.stage = Stage::Done;
                PageAction::Finish(PageReport { link: self.link.clone(), children, screenshot })
            },
            _ => self.finish(),
        }
    }
}

/// A page never changes which link it is about: whatever is reported, the
/// link of the next state, and of the report where the page is done, has the
/// URL, the host, the depth and the kind that the link had before.
pub proof fn law_page_keeps_identity(page: PageModel, event: PageEventModel, words: Seq<String>)
    ensures
        same_identity(step(page, event, words).0.link, page.link),
        step(page, event, words).1 matches ActionModel::Finish(report) ==> same_identity(
            report.link,
            page.link,
        ),
{
}

/// The work on a page ends: a page that is not done moves on with every
/// event, and is done after at most three.
pub proof fn law_page_ends(
    page: PageModel,
    first: PageEventModel,
    second: PageEventModel,
    third: PageEventModel,
    words: Seq<String>,
)
    ensures
        ({
            let one = step(page, first, words).0;
            let two = step(one, second, words).0;
            let three = step(two, third, words).0;
            three.stage == Stage::Done
        }),
        step(page, first, words).0.stage == Stage::Done <==> step(page, first, words).1 is Finish,
{
}

} // verus!
