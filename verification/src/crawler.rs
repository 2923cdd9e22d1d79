//! The crawl as a state machine: the frontier of links still to fetch, the
//! URLs whose fetch has been asked for, the URLs already fetched and the URLs
//! turned away by the host policy. The caller fetches what a pass hands out
//! and feeds every result back, in whatever order the results arrive; the
//! machine decides what is queued, what is forwarded to the output and when
//! the crawl ends.

use vstd::prelude::*;
use crate::address::Host;
use crate::error::CrawlError;
use crate::link::distinct_urls;
use crate::link::has_url;
use crate::link::holds_url;
use crate::link::link_view;
use crate::link::links_view;
use crate::link::list_view;
use crate::link::may_crawl;
use crate::link::unfetched;
use crate::link::Link;
use crate::link::LinkModel;
use crate::media::text_view;
use crate::text::holds_text;
use crate::text::texts;

verus! {

/// Whether a crawl still runs.
#[derive(Clone, Copy, Debug, PartialEq, Eq, Structural)]
pub enum Phase {
    /// Results are taken in and passes are made.
    Running,
    /// The last pass has been made and the frontier handed back.
    Finished,
    /// The output was found closed.
    Aborted,
}

/// A crawl in progress.
pub struct Crawl {
    whitelist: Option<Vec<Host>>,
    blacklist: Option<Vec<Host>>,
    to_crawl: Vec<Link>,
    requested: Vec<String>,
    crawled: Vec<String>,
    dont_crawl: Vec<String>,
    passes_left: Option<usize>,
    sitemaps_due: bool,
    seed: String,
    phase: Phase,
}

/// What a [`Crawl`] stands for.
pub struct CrawlModel {
    /// The hosts that may be crawled, if the crawl is restricted to some.
    pub whitelist: Option<Seq<Host>>,
    /// The hosts that may not be crawled, if some are excluded.
    pub blacklist: Option<Seq<Host>>,
    /// The frontier: the links that the next pass fetches, in the order in
    /// which they were found.
    pub to_crawl: Seq<LinkModel>,
    /// The URLs that a pass has handed out for fetching.
    pub requested: Seq<Seq<char>>,
    /// The URLs whose fetch has been reported.
    pub crawled: Seq<Seq<char>>,
    /// The URLs that the host policy turned away.
    pub dont_crawl: Seq<Seq<char>>,
    /// The passes that a depth-bounded crawl has left; `None` for a crawl
    /// that runs until the frontier is empty.
    pub passes_left: Option<nat>,
    /// Whether the sitemaps of the seed are still to be looked up.
    pub sitemaps_due: bool,
    /// The URL that the crawl started from.
    pub seed: Seq<char>,
    /// Whether the crawl still runs.
    pub phase: Phase,
}

/// What the caller does next.
pub enum Pass {
    /// Fetch each of `links`, and look up the sitemaps of `sitemaps` if it is
    /// given; feed every result to [`Crawl::absorb`], then ask again.
    Fetch { links: Vec<Link>, sitemaps: Option<String> },
    /// The crawl is over. Forward `leftover`, the links that the depth limit
    /// left unfetched, to the output.
    Finished { leftover: Vec<Link> },
    /// The output closed: the run ends in this error, and nothing more is
    /// fetched or forwarded.
    Aborted(CrawlError),
}

/// What a [`Pass`] stands for.
pub enum PassModel {
    Fetch { links: Seq<LinkModel>, sitemaps: Option<Seq<char>> },
    Finished { leftover: Seq<LinkModel> },
    Aborted(CrawlError),
}

impl View for Pass {
    type V = PassModel;

    open spec fn view(&self) -> PassModel {
        match self {
            Pass::Fetch { links, sitemaps } => PassModel::Fetch {
                links: links_view(links@),
                sitemaps: text_view(*sitemaps),
            },
            Pass::Finished { leftover } => PassModel::Finished { leftover: links_view(leftover@) },
            Pass::Aborted(error) => PassModel::Aborted(*error),
        }
    }
}

/// The URLs of a sequence of links.
pub open spec fn urls(links: Seq<LinkModel>) -> Seq<Seq<char>> {
    links.map_values(|link: LinkModel| link.url)
}

/// The crawl has met `url` before: it waits in the frontier, its fetch has
/// been asked for or reported, or the host policy has turned it away.
pub open spec fn known(s: CrawlModel, url: Seq<char>) -> bool {
    ||| has_url(s.to_crawl, url)
    ||| s.requested.contains(url)
    ||| s.crawled.contains(url)
    ||| s.dont_crawl.contains(url)
}

/// The crawl waits for the record of `url`: a pass has handed it out for
/// fetching, and no fetch of it has been reported.
pub open spec fn awaited(s: CrawlModel, url: Seq<char>) -> bool {
    s.requested.contains(url) && !s.crawled.contains(url)
}

/// A fetched record of `url` is taken in: the crawl waits for it, or has
/// never met the URL.
pub open spec fn taken(s: CrawlModel, url: Seq<char>) -> bool {
    awaited(s, url) || !known(s, url)
}

/// The state in which a crawl starts.
pub open spec fn initial(
    origin: LinkModel,
    passes: Option<nat>,
    whitelist: Option<Seq<Host>>,
    blacklist: Option<Seq<Host>>,
) -> CrawlModel {
    CrawlModel {
        whitelist,
        blacklist,
        to_crawl: seq![unfetched(origin)],
        requested: Seq::empty(),
        crawled: Seq::empty(),
        dont_crawl: Seq::empty(),
        passes_left: passes,
        sitemaps_due: passes is None,
        seed: origin.url,
        phase: Phase::Running,
    }
}

/// The result is a discovery that joins the frontier: the crawl runs, has
/// not met the URL, and the host policy allows the link.
pub open spec fn queues(s: CrawlModel, link: LinkModel) -> bool {
    s.phase == Phase::Running && !link.crawled && !known(s, link.url) && may_crawl(
        link.host,
        s.whitelist,
        s.blacklist,
    )
}

/// The result is a discovery that is turned away: the crawl runs, has not
/// met the URL, and the host policy does not allow the link.
pub open spec fn turns_away(s: CrawlModel, link: LinkModel) -> bool {
    s.phase == Phase::Running && !link.crawled && !known(s, link.url) && !may_crawl(
        link.host,
        s.whitelist,
        s.blacklist,
    )
}

/// The result is a fetched record that is recorded: the crawl runs and the
/// record is taken in.
pub open spec fn records(s: CrawlModel, link: LinkModel) -> bool {
    s.phase == Phase::Running && link.crawled && taken(s, link.url)
}

/// The state after one result has come in. A fetched link whose record is
/// taken in is recorded as crawled; a second record of one URL, and a record
/// of a URL that waits in the frontier or was turned away, change nothing.
/// A discovered link whose URL the crawl has met before changes nothing,
/// whenever and in whatever order it comes in; one with a new URL joins the
/// frontier where the host policy allows it and is recorded as turned away
/// where it does not. Once the crawl is over, results change nothing.
pub open spec fn after_result(s: CrawlModel, link: LinkModel) -> CrawlModel {
    if s.phase != Phase::Running {
        s
    } else if link.crawled {
        if taken(s, link.url) {
            CrawlModel { crawled: s.crawled.push(link.url), ..s }
        } else {
            s
        }
    } else if known(s, link.url) {
        s
    } else if may_crawl(link.host, s.whitelist, s.blacklist) {
        CrawlModel { to_crawl: s.to_crawl.push(unfetched(link)), ..s }
    } else {
        CrawlModel { dont_crawl: s.dont_crawl.push(link.url), ..s }
    }
}

/// The record that goes to the output when a result comes in: a fetched link
/// whose record is taken in, and a discovered link that the host policy turns
/// away, if the crawl has not met its URL before. Once the crawl is over,
/// nothing goes out.
pub open spec fn forwarded(s: CrawlModel, link: LinkModel) -> Option<LinkModel> {
    if s.phase != Phase::Running {
        None
    } else if link.crawled {
        if taken(s, link.url) {
            Some(link)
        } else {
            None
        }
    } else if !known(s, link.url) && !may_crawl(link.host, s.whitelist, s.blacklist) {
        Some(link)
    } else {
        None
    }
}

/// Whether a pass is still to be made: a depth-bounded crawl makes exactly as
/// many as it was given, an unbounded one goes on while the frontier holds a
/// link.
pub open spec fn pass_due(s: CrawlModel) -> bool {
    match s.passes_left {
        Some(left) => left > 0,
        None => s.to_crawl.len() > 0,
    }
}

/// What the caller is told at a pass boundary: the whole frontier, to fetch
/// while a pass is due and to forward unfetched when the crawl finishes;
/// nothing once it has finished; the error once the output has closed.
pub open spec fn pass_of(s: CrawlModel) -> PassModel {
    match s.phase {
        Phase::Aborted => PassModel::Aborted(CrawlError::OutputClosed),
        Phase::Finished => PassModel::Finished { leftover: Seq::empty() },
        Phase::Running => if pass_due(s) {
            PassModel::Fetch {
                links: s.to_crawl,
                sitemaps: if s.sitemaps_due {
                    Some(s.seed)
                } else {
                    None
                },
            }
        } else {
            PassModel::Finished { leftover: s.to_crawl }
        },
    }
}

/// The state after a pass boundary. Where a pass is due, the URLs of the
/// frontier are recorded as asked for and the pass is counted; where none is,
/// the crawl has finished. Either way the frontier is empty. Once the crawl
/// is over, nothing changes.
pub open spec fn after_pass(s: CrawlModel) -> CrawlModel {
    if s.phase != Phase::Running {
        s
    } else if pass_due(s) {
        CrawlModel {
            to_crawl: Seq::empty(),
            requested: s.requested + urls(s.to_crawl),
            passes_left: match s.passes_left {
                Some(left) => Some((left - 1) as nat),
                None => None,
            },
            sitemaps_due: false,
            ..s
        }
    } else {
        CrawlModel { to_crawl: Seq::empty(), phase: Phase::Finished, ..s }
    }
}

/// The state after the output was found closed.
pub open spec fn after_closed(s: CrawlModel) -> CrawlModel {
    CrawlModel { phase: Phase::Aborted, ..s }
}

/// The validity of a crawl state: no URL stands twice in the frontier, and
/// none that stands there has been asked for, reported or turned away; no URL
/// that has been asked for or reported has been turned away; every link of
/// the frontier is as it was when discovered.
pub open spec fn valid(s: CrawlModel) -> bool {
    &&& distinct_urls(s.to_crawl)
    &&& forall|i: int|
        0 <= i < s.to_crawl.len() ==> !s.requested.contains((#[trigger] s.to_crawl[i]).url)
            && !s.crawled.contains(s.to_crawl[i].url) && !s.dont_crawl.contains(
            s.to_crawl[i].url,
        ) && s.to_crawl[i] == unfetched(s.to_crawl[i])
    &&& forall|i: int|
        0 <= i < s.requested.len() ==> !s.dont_crawl.contains(#[trigger] s.requested[i])
    &&& forall|i: int| 0 <= i < s.crawled.len() ==> !s.dont_crawl.contains(#[trigger] s.crawled[i])
    &&& s.phase == Phase::Finished ==> s.to_crawl.len() == 0
}

/// Starts a crawl that makes exactly `crawl_depth` passes from `origin_url`
/// and then hands back, unfetched, what is left in the frontier.
pub fn crawl_with_depth(
    origin_url: Link,
    crawl_depth: usize,
    whitelist: Option<Vec<Host>>,
    blacklist: Option<Vec<Host>>,
) -> (crawl: Crawl)
    ensures
        crawl.wf(),
        crawl@ == initial(
            origin_url@,
            Some(crawl_depth as nat),
            list_view(whitelist),
            list_view(blacklist),
        ),
        forall|url: Seq<char>| #[trigger] known(crawl@, url) == (url == origin_url@.url),
{
    Crawl::start(origin_url, Some(crawl_depth), whitelist, blacklist)
}

/// Starts a crawl from `origin_url` that goes on until the frontier is empty,
/// and that looks up the seed's sitemaps during its first pass.
pub fn crawl_no_depth(
    origin_url: Link,
    whitelist: Option<Vec<Host>>,
    blacklist: Option<Vec<Host>>,
) -> (crawl: Crawl)
    ensures
        crawl.wf(),
        crawl@ == initial(origin_url@, None, list_view(whitelist), list_view(blacklist)),
        forall|url: Seq<char>| #[trigger] known(crawl@, url) == (url == origin_url@.url),
{
    Crawl::start(origin_url, None, whitelist, blacklist)
}

impl Crawl {
    /// The state that this crawl is in.
    pub closed spec fn view(&self) -> CrawlModel {
        CrawlModel {
            whitelist: list_view(self.whitelist),
            blacklist: list_view(self.blacklist),
            to_crawl: links_view(self.to_crawl@),
            requested: texts(self.requested@),
            crawled: texts(self.crawled@),
            dont_crawl: texts(self.dont_crawl@),
            passes_left: match self.passes_left {
                Some(left) => Some(left as nat),
                None => None,
            },
            sitemaps_due: self.sitemaps_due,
            seed: self.seed@,
            phase: self.phase,
        }
    }

    /// Every crawl that this module hands out is valid, and stays so.
    pub open spec fn wf(&self) -> bool {
        valid(self@)
    }

    fn start(
        origin: Link,
        passes: Option<usize>,
        whitelist: Option<Vec<Host>>,
        blacklist: Option<Vec<Host>>,
    ) -> (crawl: Crawl)
        ensures
            crawl.wf(),
            crawl@ == initial(
                origin@,
                match passes {
                    Some(left) => Some(left as nat),
                    None => None,
                },
                list_view(whitelist),
                list_view(blacklist),
            ),
            forall|url: Seq<char>| #[trigger] known(crawl@, url) == (url == origin@.url),
    {
        let mut to_crawl: Vec<Link> = Vec::new();
        to_crawl.push(origin.unfetched());
        let crawl = Crawl {
            whitelist,
            blacklist,
            to_crawl,
            requested: Vec::new(),
            crawled: Vec::new(),
            dont_crawl: Vec::new(),
            passes_left: passes,
            sitemaps_due: passes.is_none(),
            seed: origin.url,
            phase: Phase::Running,
        };
        proof {
            assert(crawl@.to_crawl =~= seq![unfetched(origin@)]);
            assert(crawl@.requested =~= Seq::empty());
            assert(crawl@.crawled =~= Seq::empty());
            assert(crawl@.dont_crawl =~= Seq::empty());
            assert forall|url: Seq<char>| #[trigger]
                known(crawl@, url) == (url == origin@.url) by {
                if url == origin@.url {
                    assert(crawl@.to_crawl[0].url == url);
                }
            }
        }
        crawl
    }

    /// Whether the crawl has met `url` before.
    fn knows(&self, url: &str) -> (found: bool)
        ensures
            found == known(self@, url@),
    {
        holds_url(&self.to_crawl, url) || holds_text(&self.requested, url) || holds_text(
            &self.crawled,
            url,
        ) || holds_text(&self.dont_crawl, url)
    }

    /// Whether a fetched record of `url` is taken in.
    fn takes(&self, url: &str) -> (found: bool)
        ensures
            found == taken(self@, url@),
    {
        if holds_text(&self.crawled, url) {
            false
        } else {
            holds_text(&self.requested, url) || !self.knows(url)
        }
    }

    /// Takes in one result of the current pass and says which record, if any,
    /// goes to the output for it.
    pub fn absorb(&mut self, link: Link) -> (forward: Option<Link>)
        requires
            old(self).wf(),
        ensures
            final(self).wf(),
            final(self)@ == after_result(old(self)@, link@),
            link_view(forward) == forwarded(old(self)@, link@),
            forall|url: Seq<char>| #[trigger]
                known(final(self)@, url) == (known(old(self)@, url) || (url == link@.url && (
                queues(old(self)@, link@) || turns_away(old(self)@, link@) || records(
                    old(self)@,
                    link@,
                )))),
            forall|url: Seq<char>| #[trigger]
                awaited(final(self)@, url) == (awaited(old(self)@, url) && !(url == link@.url
                    && records(old(self)@, link@))),
    {
        proof {
            law_step_valid(self@, Event::Result(link@));
            assert forall|url: Seq<char>| #[trigger]
                known(after_result(self@, link@), url) == (known(self@, url) || (url == link@.url
                    && (queues(self@, link@) || turns_away(self@, link@) || records(
                    self@,
                    link@,
                )))) by {
                lemma_step_membership(self@, Event::Result(link@), url);
            }
            assert forall|url: Seq<char>| #[trigger]
                awaited(after_result(self@, link@), url) == (awaited(self@, url) && !(url
                    == link@.url && records(self@, link@))) by {
                lemma_step_membership(self@, Event::Result(link@), url);
            }
        }
        match self.phase {
            Phase::Running => {},
            _ => {
                return None;
            },
        }
        if link.crawled {
            if self.takes(link.url.as_str()) {
                self.crawled.push(link.url.clone());
                proof {
                    assert(texts(self.crawled@) =~= texts(old(self).crawled@).push(link.url@));
                }
                Some(link)
            } else {
                None
            }
        } else if self.knows(link.url.as_str()) {
            None
        } else if link.should_crawl(&self.whitelist, &self.blacklist) {
            self.to_crawl.push(link.unfetched());
            proof {
                assert(links_view(self.to_crawl@) =~= links_view(old(self).to_crawl@).push(
                    unfetched(link@),
                ));
            }
            None
        } else {
            self.dont_crawl.push(link.url.clone());
            proof {
                assert(texts(self.dont_crawl@) =~= texts(old(self).dont_crawl@).push(link.url@));
            }
            Some(link)
        }
    }

    /// Records the URLs of `links` as asked for.
    fn request(&mut self, links: &Vec<Link>)
        ensures
            final(self)@ == (CrawlModel {
                requested: old(self)@.requested + urls(links_view(links@)),
                ..old(self)@
            }),
    {
        let mut i: usize = 0;
        proof {
            assert(urls(links_view(links@)).take(0) =~= Seq::empty());
            assert(self@.requested + Seq::<Seq<char>>::empty() =~= self@.requested);
        }
        while i < links.len()
            invariant
                i <= links.len(),
                self@ == (CrawlModel {
                    requested: old(self)@.requested + urls(links_view(links@)).take(i as int),
                    ..old(self)@
                }),
            decreases links.len() - i,
        {
            let ghost before = self@.requested;
            self.requested.push(links[i].url.clone());
            proof {
                let all = urls(links_view(links@));
                assert(all[i as int] == links@[i as int]@.url);
                assert(texts(self.requested@) =~= before.push(all[i as int]));
                assert(all.take(i + 1) =~= all.take(i as int).push(all[i as int]));
                assert(before.push(all[i as int]) =~= old(self)@.requested + all.take(i + 1));
            }
            i += 1;
        }
        proof {
            assert(urls(links_view(links@)).take(links.len() as int) =~= urls(
                links_view(links@),
            ));
        }
    }

    /// Ends the current pass: hands out the whole frontier, to fetch while a
    /// pass is due and to forward unfetched once none is, and empties it.
    pub fn next_pass(&mut self) -> (pass: Pass)
        requires
            old(self).wf(),
        ensures
            final(self).wf(),
            final(self)@ == after_pass(old(self)@),
            pass@ == pass_of(old(self)@),
            forall|url: Seq<char>| #[trigger]
                known(final(self)@, url) == (known(old(self)@, url) && !(has_url(
                    old(self)@.to_crawl,
                    url,
                ) && old(self)@.phase == Phase::Running && !pass_due(old(self)@))),
            forall|url: Seq<char>| #[trigger]
                awaited(final(self)@, url) == (awaited(old(self)@, url) || has_url(
                    handed_out(old(self)@, Event::PassEnd),
                    url,
                )),
    {
        proof {
            law_step_valid(self@, Event::PassEnd);
            assert forall|url: Seq<char>| #[trigger]
                known(after_pass(self@), url) == (known(self@, url) && !(has_url(
                    self@.to_crawl,
                    url,
                ) && self@.phase == Phase::Running && !pass_due(self@))) by {
                lemma_step_membership(self@, Event::PassEnd, url);
            }
            assert forall|url: Seq<char>| #[trigger]
                awaited(after_pass(self@), url) == (awaited(self@, url) || has_url(
                    handed_out(self@, Event::PassEnd),
                    url,
                )) by {
                lemma_step_membership(self@, Event::PassEnd, url);
            }
        }
        match self.phase {
            Phase::Aborted => {
                return Pass::Aborted(CrawlError::OutputClosed);
            },
            Phase::Finished => {
                let leftover: Vec<Link> = Vec::new();
                assert(links_view(leftover@) =~= Seq::empty());
                return Pass::Finished { leftover };
            },
            Phase::Running => {},
        }
        let mut links: Vec<Link> = Vec::new();
        std::mem::swap(&mut links, &mut self.to_crawl);
        proof {
            assert(links_view(self.to_crawl@) =~= Seq::empty());
        }
        let due = match self.passes_left {
            Some(left) => left > 0,
            None => links.len() > 0,
        };
        if due {
            let sitemaps = if self.sitemaps_due {
                Some(self.seed.clone())
            } else {
                None
            };
            self.sitemaps_due = false;
            if let Some(left) = self.passes_left {
                self.passes_left = Some(left - 1);
            }
            self.request(&links);
            Pass::Fetch { links, sitemaps }
        } else {
            self.phase = Phase::Finished;
            Pass::Finished { leftover: links }
        }
    }

    /// Takes note that the output was found closed. The run is over: no
    /// result is taken in any more, and the next pass reports the error that
    /// is returned here.
    pub fn output_closed(&mut self) -> (error: CrawlError)
        requires
            old(self).wf(),
        ensures
            final(self).wf(),
            final(self)@ == after_closed(old(self)@),
            error == CrawlError::OutputClosed,
    {
        self.phase = Phase::Aborted;
        CrawlError::OutputClosed
    }

    /// Whether the crawl still runs.
    pub fn phase(&self) -> (phase: Phase)
        ensures
            phase == self@.phase,
    {
        self.phase
    }

    /// Whether a pass has handed `url` out for fetching.
    pub fn is_requested(&self, url: &str) -> (found: bool)
        ensures
            found == self@.requested.contains(url@),
    {
        holds_text(&self.requested, url)
    }

    /// Whether the fetch of `url` has been reported.
    pub fn is_crawled(&self, url: &str) -> (found: bool)
        ensures
            found == self@.crawled.contains(url@),
    {
        holds_text(&self.crawled, url)
    }

    /// Whether the host policy has turned `url` away.
    pub fn is_turned_away(&self, url: &str) -> (found: bool)
        ensures
            found == self@.dont_crawl.contains(url@),
    {
        holds_text(&self.dont_crawl, url)
    }

    /// Whether `url` waits in the frontier.
    pub fn is_pending(&self, url: &str) -> (found: bool)
        ensures
            found == has_url(self@.to_crawl, url@),
    {
        holds_url(&self.to_crawl, url)
    }
}

/// What can happen to a crawl: a result comes in, a pass ends, or the
/// output is found closed.
pub enum Event {
    Result(LinkModel),
    PassEnd,
    OutputClosed,
}

/// The state after an event.
pub open spec fn after(s: CrawlModel, event: Event) -> CrawlModel {
    match event {
        Event::Result(link) => after_result(s, link),
        Event::PassEnd => after_pass(s),
        Event::OutputClosed => after_closed(s),
    }
}

/// The links that an event hands out for fetching.
pub open spec fn handed_out(s: CrawlModel, event: Event) -> Seq<LinkModel> {
    match pass_of(s) {
        PassModel::Fetch { links, .. } if event is PassEnd => links,
        _ => Seq::empty(),
    }
}

/// The records that an event sends to the output.
pub open spec fn sent_out(s: CrawlModel, event: Event) -> Seq<LinkModel> {
    match event {
        Event::Result(link) => match forwarded(s, link) {
            Some(record) => seq![record],
            None => Seq::empty(),
        },
        Event::PassEnd => match pass_of(s) {
            PassModel::Finished { leftover } => leftover,
            _ => Seq::empty(),
        },
        Event::OutputClosed => Seq::empty(),
    }
}

/// The state after a sequence of events.
pub open spec fn run(s: CrawlModel, events: Seq<Event>) -> CrawlModel
    decreases events.len(),
{
    if events.len() == 0 {
        s
    } else {
        after(run(s, events.drop_last()), events.last())
    }
}

/// The state in which event `k` of a run finds the crawl.
pub open spec fn before(s: CrawlModel, events: Seq<Event>, k: int) -> CrawlModel {
    run(s, events.take(k))
}

/// A run is made of its steps.
pub proof fn lemma_run_step(s: CrawlModel, events: Seq<Event>, k: int)
    requires
        0 <= k < events.len(),
    ensures
        before(s, events, k + 1) == after(before(s, events, k), events[k]),
        before(s, events, 0) == s,
{
    assert(events.take(k + 1).drop_last() =~= events.take(k));
    assert(events.take(0) =~= Seq::empty());
}

/// A URL is among the URLs of some links exactly when one of them has it.
pub proof fn lemma_urls(links: Seq<LinkModel>, url: Seq<char>)
    ensures
        urls(links).contains(url) == has_url(links, url),
{
    if urls(links).contains(url) {
        let i = choose|i: int| 0 <= i < urls(links).len() && urls(links)[i] == url;
        assert(links[i].url == url);
    }
    if has_url(links, url) {
        let i = choose|i: int| 0 <= i < links.len() && (#[trigger] links[i]).url == url;
        assert(urls(links)[i] == url);
    }
}

/// What stands in two lists put together stands in one of them.
pub proof fn lemma_joined(first: Seq<Seq<char>>, second: Seq<Seq<char>>, item: Seq<char>)
    ensures
        (first + second).contains(item) == (first.contains(item) || second.contains(item)),
{
    let both = first + second;
    if both.contains(item) {
        let i = choose|i: int| 0 <= i < both.len() && both[i] == item;
        if i < first.len() {
            assert(first[i] == item);
        } else {
            assert(second[i - first.len()] == item);
        }
    }
    if first.contains(item) {
        let i = choose|i: int| 0 <= i < first.len() && first[i] == item;
        assert(both[i] == item);
    }
    if second.contains(item) {
        let i = choose|i: int| 0 <= i < second.len() && second[i] == item;
        assert(both[first.len() + i] == item);
    }
}

/// What a step does to what the crawl records: nothing that is recorded is
/// ever forgotten, a URL leaves the frontier only by being asked for or by
/// the crawl finishing, and whatever is newly recorded comes from the event.
pub proof fn lemma_step_records(s: CrawlModel, event: Event, url: Seq<char>)
    ensures
        s.requested.contains(url) ==> after(s, event).requested.contains(url),
        s.crawled.contains(url) ==> after(s, event).crawled.contains(url),
        s.dont_crawl.contains(url) ==> after(s, event).dont_crawl.contains(url),
        after(s, event).requested.contains(url) ==> s.requested.contains(url) || has_url(
            handed_out(s, event),
            url,
        ),
        after(s, event).dont_crawl.contains(url) ==> s.dont_crawl.contains(url) || (event matches Event::Result(
            link,
        ) && link.url == url && !link.crawled && forwarded(s, link) is Some),
        has_url(after(s, event).to_crawl, url) ==> has_url(s.to_crawl, url) || (event matches Event::Result(
            link,
        ) && link.url == url && !link.crawled && !known(s, url)),
        has_url(s.to_crawl, url) && event is Result ==> has_url(after(s, event).to_crawl, url),
        after(s, event).crawled.contains(url) ==> s.crawled.contains(url) || (event matches Event::Result(
            link,
        ) && link.url == url && link.crawled),
{
    let t = after(s, event);
    match event {
        Event::Result(link) => {
            if s.crawled.contains(url) {
                let i = choose|i: int| 0 <= i < s.crawled.len() && s.crawled[i] == url;
                assert(t.crawled[i] == url);
            }
            if t.crawled.contains(url) {
                let i = choose|i: int| 0 <= i < t.crawled.len() && t.crawled[i] == url;
                if i < s.crawled.len() {
                    assert(s.crawled[i] == url);
                }
            }
            if s.dont_crawl.contains(url) {
                let i = choose|i: int| 0 <= i < s.dont_crawl.len() && s.dont_crawl[i] == url;
                assert(t.dont_crawl[i] == url);
            }
            if t.dont_crawl.contains(url) {
                let i = choose|i: int| 0 <= i < t.dont_crawl.len() && t.dont_crawl[i] == url;
                if i < s.dont_crawl.len() {
                    assert(s.dont_crawl[i] == url);
                }
            }
            if has_url(t.to_crawl, url) {
                let i = choose|i: int| 0 <= i < t.to_crawl.len() && (#[trigger] t.to_crawl[i]).url
                    == url;
                if i < s.to_crawl.len() {
                    assert(s.to_crawl[i].url == url);
                }
            }
            if has_url(s.to_crawl, url) {
                let i = choose|i: int| 0 <= i < s.to_crawl.len() && (#[trigger] s.to_crawl[i]).url
                    == url;
                assert(t.to_crawl[i].url == url);
            }
        },
        Event::PassEnd => {
            lemma_joined(s.requested, urls(s.to_crawl), url);
            lemma_urls(s.to_crawl, url);
        },
        Event::OutputClosed => {},
    }
}

/// What a step does to what the crawl knows and waits for, URL by URL.
pub proof fn lemma_step_membership(s: CrawlModel, event: Event, url: Seq<char>)
    requires
        valid(s),
    ensures
        event matches Event::Result(link) ==> known(after(s, event), url) == (known(s, url) || (
        url == link.url && (queues(s, link) || turns_away(s, link) || records(s, link)))),
        event matches Event::Result(link) ==> awaited(after(s, event), url) == (awaited(s, url)
            && !(url == link.url && records(s, link))),
        event is PassEnd ==> known(after(s, event), url) == (known(s, url) && !(has_url(
            s.to_crawl,
            url,
        ) && s.phase == Phase::Running && !pass_due(s))),
        event is PassEnd ==> awaited(after(s, event), url) == (awaited(s, url) || has_url(
            handed_out(s, event),
            url,
        )),
{
    let t = after(s, event);
    lemma_step_records(s, event, url);
    match event {
        Event::Result(link) => {
            if queues(s, link) {
                assert(t.to_crawl[s.to_crawl.len() as int].url == link.url);
            }
            if turns_away(s, link) {
                assert(t.dont_crawl[s.dont_crawl.len() as int] == link.url);
            }
            if records(s, link) {
                assert(t.crawled[s.crawled.len() as int] == link.url);
            }
        },
        Event::PassEnd => {
            lemma_urls(s.to_crawl, url);
            lemma_joined(s.requested, urls(s.to_crawl), url);
            if has_url(s.to_crawl, url) {
                let i = choose|i: int| 0 <= i < s.to_crawl.len() && (#[trigger] s.to_crawl[i]).url
                    == url;
                assert(!s.requested.contains(s.to_crawl[i].url));
                assert(!s.crawled.contains(s.to_crawl[i].url));
                assert(!s.dont_crawl.contains(s.to_crawl[i].url));
            }
        },
        Event::OutputClosed => {},
    }
}

/// Every event keeps a valid crawl valid.
pub proof fn law_step_valid(s: CrawlModel, event: Event)
    requires
        valid(s),
    ensures
        valid(after(s, event)),
{
    let t = after(s, event);
    match event {
        Event::Result(link) => {
            if s.phase == Phase::Running && !link.crawled && !known(s, link.url) {
                if may_crawl(link.host, s.whitelist, s.blacklist) {
                    assert forall|i: int, j: int| 0 <= i < j < t.to_crawl.len() implies (
                    #[trigger] t.to_crawl[i]).url != (#[trigger] t.to_crawl[j]).url by {
                        if j == s.to_crawl.len() {
                            assert(s.to_crawl[i].url != link.url);
                        }
                    }
                } else {
                    assert forall|i: int| 0 <= i < t.to_crawl.len() implies !t.dont_crawl.contains(
                        (#[trigger] t.to_crawl[i]).url,
                    ) by {
                        lemma_step_records(s, event, t.to_crawl[i].url);
                        assert(s.to_crawl[i].url != link.url);
                    }
                    assert forall|i: int| 0 <= i < t.requested.len() implies !t.dont_crawl.contains(
                        #[trigger] t.requested[i],
                    ) by {
                        lemma_step_records(s, event, t.requested[i]);
                    }
                }
            }
        },
        Event::PassEnd => {
            if s.phase == Phase::Running && pass_due(s) {
                assert forall|i: int| 0 <= i < t.requested.len() implies !t.dont_crawl.contains(
                    #[trigger] t.requested[i],
                ) by {
                    if i >= s.requested.len() {
                        assert(t.requested[i] == s.to_crawl[i - s.requested.len()].url);
                    }
                }
            }
        },
        Event::OutputClosed => {},
    }
}

/// Every run keeps a valid crawl valid.
pub proof fn law_run_valid(s: CrawlModel, events: Seq<Event>)
    requires
        valid(s),
    ensures
        valid(run(s, events)),
    decreases events.len(),
{
    if events.len() > 0 {
        law_run_valid(s, events.drop_last());
        law_step_valid(run(s, events.drop_last()), events.last());
    }
}

/// What the crawl records only grows: a URL that has been asked for, reported
/// as crawled or turned away before event `from` is still so before every
/// later event.
pub proof fn law_records_only_grow(
    s: CrawlModel,
    events: Seq<Event>,
    from: int,
    to: int,
    url: Seq<char>,
)
    requires
        0 <= from <= to <= events.len(),
    ensures
        before(s, events, from).requested.contains(url) ==> before(
            s,
            events,
            to,
        ).requested.contains(url),
        before(s, events, from).crawled.contains(url) ==> before(s, events, to).crawled.contains(
            url,
        ),
        before(s, events, from).dont_crawl.contains(url) ==> before(
            s,
            events,
            to,
        ).dont_crawl.contains(url),
    decreases to - from,
{
    if from < to {
        lemma_run_step(s, events, from);
        lemma_step_records(before(s, events, from), events[from], url);
        law_records_only_grow(s, events, from + 1, to, url);
    }
}

/// Once a crawl is over it stays as it is: no event changes the state,
/// nothing is handed out for fetching and nothing is sent out.
pub proof fn law_over_is_final(s: CrawlModel, events: Seq<Event>, from: int, to: int)
    requires
        valid(s),
        0 <= from <= to <= events.len(),
        before(s, events, from).phase != Phase::Running,
    ensures
        before(s, events, to).phase != Phase::Running,
        forall|event: Event| (#[trigger] handed_out(before(s, events, to), event)).len() == 0,
        forall|event: Event| (#[trigger] sent_out(before(s, events, to), event)).len() == 0,
    decreases to - from,
{
    law_run_valid(s, events.take(from));
    if from < to {
        lemma_run_step(s, events, from);
        law_step_valid(before(s, events, from), events[from]);
        law_over_is_final(s, events, from + 1, to);
    }
}

/// A closed output is final: from the moment at which the output is found
/// closed, nothing is handed out for fetching and nothing is sent out.
pub proof fn law_closed_output_is_final(s: CrawlModel, events: Seq<Event>, k: int, j: int)
    requires
        valid(s),
        0 <= k < j < events.len(),
        events[k] is OutputClosed,
    ensures
        handed_out(before(s, events, j), events[j]).len() == 0,
        sent_out(before(s, events, j), events[j]).len() == 0,
{
    lemma_run_step(s, events, k);
    law_over_is_final(s, events, k + 1, j);
}

/// At most one fetch: no URL is handed out for fetching twice. A URL that a
/// pass has handed out is handed out by no later pass and is never sent out
/// as left unfetched, whatever results come in, in whatever order, and
/// however many passes follow; and the links that one pass hands out have
/// different URLs.
pub proof fn law_fetched_at_most_once(
    s: CrawlModel,
    events: Seq<Event>,
    i: int,
    j: int,
    url: Seq<char>,
)
    requires
        valid(s),
        0 <= i < j < events.len(),
        has_url(handed_out(before(s, events, i), events[i]), url),
    ensures
        !has_url(handed_out(before(s, events, j), events[j]), url),
        !has_url(sent_out(before(s, events, j), Event::PassEnd), url),
        distinct_urls(handed_out(before(s, events, i), events[i])),
{
    law_run_valid(s, events.take(i));
    law_run_valid(s, events.take(j));
    lemma_run_step(s, events, i);
    let at_i = before(s, events, i);
    let at_j = before(s, events, j);
    lemma_urls(at_i.to_crawl, url);
    lemma_joined(at_i.requested, urls(at_i.to_crawl), url);
    law_records_only_grow(s, events, i + 1, j, url);
    if has_url(at_j.to_crawl, url) {
        let n = choose|n: int| 0 <= n < at_j.to_crawl.len() && (#[trigger] at_j.to_crawl[n]).url
            == url;
        assert(!at_j.requested.contains(at_j.to_crawl[n].url));
    }
}

/// Fetched or filtered, never both: the URL of a record that is sent out as
/// turned away by the host policy is never handed out for fetching and never
/// sent out as left unfetched, neither before nor after.
pub proof fn law_never_fetched_and_filtered(
    s: CrawlModel,
    events: Seq<Event>,
    k: int,
    j: int,
    link: LinkModel,
)
    requires
        valid(s),
        0 <= k < events.len(),
        0 <= j < events.len(),
        events[j] == Event::Result(link),
        !link.crawled,
        forwarded(before(s, events, j), link) is Some,
    ensures
        !has_url(handed_out(before(s, events, k), events[k]), link.url),
        events[k] is PassEnd ==> !has_url(sent_out(before(s, events, k), events[k]), link.url),
{
    let url = link.url;
    let at_k = before(s, events, k);
    let at_j = before(s, events, j);
    law_run_valid(s, events.take(k));
    law_run_valid(s, events.take(j));
    lemma_run_step(s, events, k);
    lemma_run_step(s, events, j);
    if has_url(at_k.to_crawl, url) && events[k] is PassEnd && at_k.phase == Phase::Running {
        let n = choose|n: int| 0 <= n < at_k.to_crawl.len() && (#[trigger] at_k.to_crawl[n]).url
            == url;
        if k < j {
            if pass_due(at_k) {
                lemma_urls(at_k.to_crawl, url);
                lemma_joined(at_k.requested, urls(at_k.to_crawl), url);
                law_records_only_grow(s, events, k + 1, j, url);
            } else {
                law_over_is_final(s, events, k + 1, j);
                assert(sent_out(at_j, events[j]).len() == 0);
            }
        } else if k > j {
            assert(before(s, events, j + 1).dont_crawl.last() == url);
            law_records_only_grow(s, events, j + 1, k, url);
            assert(!at_k.dont_crawl.contains(at_k.to_crawl[n].url));
        }
    }
}

/// A filtered record goes out once: of the links that the host policy turns
/// away, no two that are sent to the output in one run have the same URL.
pub proof fn law_turned_away_sent_once(
    s: CrawlModel,
    events: Seq<Event>,
    i: int,
    j: int,
    first: LinkModel,
    second: LinkModel,
)
    requires
        0 <= i < j < events.len(),
        events[i] == Event::Result(first),
        events[j] == Event::Result(second),
        !first.crawled,
        !second.crawled,
        forwarded(before(s, events, i), first) is Some,
        forwarded(before(s, events, j), second) is Some,
    ensures
        first.url != second.url,
{
    lemma_run_step(s, events, i);
    lemma_step_records(before(s, events, i), events[i], first.url);
    assert(before(s, events, i + 1).dont_crawl.last() == first.url);
    law_records_only_grow(s, events, i + 1, j, first.url);
}

/// Exactly once: no two records that are sent to the output in one run have
/// the same URL, be they fetched, turned away or left unfetched, whatever
/// results come in and in whatever order.
pub proof fn law_sent_out_once(
    s: CrawlModel,
    events: Seq<Event>,
    i: int,
    j: int,
    first: LinkModel,
    second: LinkModel,
)
    requires
        valid(s),
        0 <= i < j < events.len(),
        sent_out(before(s, events, i), events[i]).contains(first),
        sent_out(before(s, events, j), events[j]).contains(second),
    ensures
        first.url != second.url,
        distinct_urls(sent_out(before(s, events, i), events[i])),
{
    let at_i = before(s, events, i);
    let at_j = before(s, events, j);
    let url = first.url;
    law_run_valid(s, events.take(i));
    law_run_valid(s, events.take(j));
    lemma_run_step(s, events, i);
    lemma_run_step(s, events, j);
    law_records_only_grow(s, events, i + 1, j, url);
    assert(at_i.phase == Phase::Running);
    assert(at_j.phase == Phase::Running);
    let n = choose|n: int|
        0 <= n < sent_out(at_i, events[i]).len() && sent_out(at_i, events[i])[n] == first;
    let m = choose|m: int|
        0 <= m < sent_out(at_j, events[j]).len() && sent_out(at_j, events[j])[m] == second;
    match events[i] {
        Event::Result(link) => {
            assert(first == link);
            let next = before(s, events, i + 1);
            if link.crawled {
                assert(next.crawled.last() == url);
            } else {
                assert(next.dont_crawl.last() == url);
            }
            if first.url == second.url {
                match events[j] {
                    Event::Result(other) => {
                        assert(second == other);
                        if other.crawled && !link.crawled {
                            let p = choose|p: int|
                                0 <= p < at_j.requested.len() && at_j.requested[p] == url;
                            assert(!at_j.dont_crawl.contains(at_j.requested[p]));
                        }
                    },
                    Event::PassEnd => {
                        assert(at_j.to_crawl[m].url == url);
                        assert(!at_j.crawled.contains(at_j.to_crawl[m].url));
                        assert(!at_j.dont_crawl.contains(at_j.to_crawl[m].url));
                    },
                    Event::OutputClosed => {},
                }
            }
        },
        Event::PassEnd => {
            law_over_is_final(s, events, i + 1, j);
        },
        Event::OutputClosed => {},
    }
}

/// A link that the host policy turns away never joins the frontier, and a
/// link that it allows is never sent out as a filtered record.
pub proof fn law_policy_partitions(s: CrawlModel, link: LinkModel)
    requires
        !link.crawled,
    ensures
        !may_crawl(link.host, s.whitelist, s.blacklist) ==> after_result(s, link).to_crawl
            == s.to_crawl,
        may_crawl(link.host, s.whitelist, s.blacklist) ==> forwarded(s, link) is None
            && after_result(s, link).dont_crawl == s.dont_crawl,
{
}

/// Nothing is lost at a pass boundary: while the crawl runs, every link of
/// the frontier, and nothing else, is handed out for fetching or sent out
/// unfetched, each once, and the frontier is empty afterwards.
pub proof fn law_frontier_leaves_whole(s: CrawlModel)
    requires
        valid(s),
        s.phase == Phase::Running,
    ensures
        handed_out(s, Event::PassEnd) + sent_out(s, Event::PassEnd) == s.to_crawl,
        distinct_urls(handed_out(s, Event::PassEnd) + sent_out(s, Event::PassEnd)),
        after(s, Event::PassEnd).to_crawl.len() == 0,
        pass_due(s) ==> sent_out(s, Event::PassEnd).len() == 0,
        !pass_due(s) ==> handed_out(s, Event::PassEnd).len() == 0,
{
    assert(handed_out(s, Event::PassEnd) + sent_out(s, Event::PassEnd) =~= s.to_crawl);
}

/// Records go out as they came in, and a link joins the frontier as it was
/// when discovered: a record that is forwarded is the result itself, and a
/// link that joins the frontier has the identity of the result and nothing
/// fetched.
pub proof fn law_records_unchanged(s: CrawlModel, link: LinkModel)
    ensures
        forwarded(s, link) matches Some(record) ==> record == link,
        forall|i: int|
            s.to_crawl.len() <= i < after_result(s, link).to_crawl.len() ==> (
            #[trigger] after_result(s, link).to_crawl[i]) == unfetched(link),
        after_result(s, link).to_crawl.len() >= s.to_crawl.len(),
        forall|i: int|
            0 <= i < s.to_crawl.len() ==> (#[trigger] after_result(s, link).to_crawl[i])
                == s.to_crawl[i],
{
}

/// No pass ends and the output stays open among the events from `from` up
/// to, but not including, `to`.
pub open spec fn within_pass(events: Seq<Event>, from: int, to: int) -> bool {
    forall|i: int| from <= i < to ==> (#[trigger] events[i]) is Result
}

/// A URL that waits in the frontier waits there until the pass ends, and the
/// crawl stays in its phase.
pub proof fn lemma_frontier_waits(
    s: CrawlModel,
    events: Seq<Event>,
    from: int,
    to: int,
    url: Seq<char>,
)
    requires
        0 <= from <= to <= events.len(),
        within_pass(events, from, to),
    ensures
        has_url(before(s, events, from).to_crawl, url) ==> has_url(
            before(s, events, to).to_crawl,
            url,
        ),
        before(s, events, to).phase == before(s, events, from).phase,
        before(s, events, to).passes_left == before(s, events, from).passes_left,
        before(s, events, to).requested == before(s, events, from).requested,
        before(s, events, to).whitelist == before(s, events, from).whitelist,
        before(s, events, to).blacklist == before(s, events, from).blacklist,
    decreases to - from,
{
    if from < to {
        lemma_run_step(s, events, from);
        lemma_step_records(before(s, events, from), events[from], url);
        lemma_frontier_waits(s, events, from + 1, to, url);
    }
}

/// Nothing that was queued is forgotten: while the crawl runs, a URL that
/// waits in the frontier leaves it at the end of the pass and not before,
/// handed out for fetching where a pass is due and sent out unfetched where
/// none is.
pub proof fn law_queued_leaves_at_pass_end(
    s: CrawlModel,
    events: Seq<Event>,
    k: int,
    j: int,
    url: Seq<char>,
)
    requires
        0 <= k <= j < events.len(),
        before(s, events, k).phase == Phase::Running,
        has_url(before(s, events, k).to_crawl, url),
        within_pass(events, k, j),
        events[j] is PassEnd,
    ensures
        pass_due(before(s, events, j)) ==> has_url(
            handed_out(before(s, events, j), events[j]),
            url,
        ),
        !pass_due(before(s, events, j)) ==> has_url(
            sent_out(before(s, events, j), events[j]),
            url,
        ),
        !has_url(before(s, events, j + 1).to_crawl, url),
{
    lemma_frontier_waits(s, events, k, j, url);
    lemma_run_step(s, events, j);
}

/// No fetch goes unreported: while the crawl runs, the first fetched record
/// that comes in for a URL handed out for fetching goes out, unchanged, and
/// is recorded as crawled, whatever has been discovered in between.
pub proof fn law_fetched_always_sent(s: CrawlModel, link: LinkModel)
    requires
        link.crawled,
        s.phase == Phase::Running,
        awaited(s, link.url),
    ensures
        sent_out(s, Event::Result(link)) == seq![link],
        after_result(s, link).crawled.contains(link.url),
        !awaited(after_result(s, link), link.url),
        after_result(s, link).to_crawl == s.to_crawl,
{
    assert(after_result(s, link).crawled.last() == link.url);
}

/// While the crawl runs, every discovered link whose URL is new to the crawl
/// is accounted for at once: it joins the frontier where the host policy
/// allows it and goes out as turned away where it does not. Afterwards the
/// crawl knows the URL.
pub proof fn law_discovery_is_placed(s: CrawlModel, link: LinkModel)
    requires
        !link.crawled,
        s.phase == Phase::Running,
        !known(s, link.url),
    ensures
        may_crawl(link.host, s.whitelist, s.blacklist) ==> has_url(
            after_result(s, link).to_crawl,
            link.url,
        ) && sent_out(s, Event::Result(link)).len() == 0,
        !may_crawl(link.host, s.whitelist, s.blacklist) ==> sent_out(s, Event::Result(link))
            == seq![link],
        known(after_result(s, link), link.url),
{
    let t = after_result(s, link);
    if may_crawl(link.host, s.whitelist, s.blacklist) {
        assert(t.to_crawl[s.to_crawl.len() as int].url == link.url);
    } else {
        assert(t.dont_crawl[s.dont_crawl.len() as int] == link.url);
    }
}

/// A URL that the crawl has not met stays unmet while no result names it
/// and no pass ends.
pub proof fn lemma_unmet_stays(
    s: CrawlModel,
    events: Seq<Event>,
    from: int,
    to: int,
    url: Seq<char>,
)
    requires
        0 <= from <= to <= events.len(),
        !known(before(s, events, from), url),
        forall|i: int|
            from <= i < to ==> ((#[trigger] events[i]) matches Event::Result(link) && link.url
                != url),
    ensures
        !known(before(s, events, to), url),
    decreases to - from,
{
    if from < to {
        lemma_run_step(s, events, from);
        lemma_step_records(before(s, events, from), events[from], url);
        lemma_unmet_stays(s, events, from + 1, to, url);
    }
}

/// The events of a crawl's first pass: the pass boundary that hands out the
/// seed, the results in the order in which they come in, and the pass
/// boundary that follows.
pub open spec fn first_pass(results: Seq<LinkModel>) -> Seq<Event> {
    seq![Event::PassEnd] + results.map_values(|link: LinkModel| Event::Result(link))
        + seq![Event::PassEnd]
}

/// The depth limit: in a crawl of one pass, whatever results the pass brings
/// and in whatever order, only the seed is handed out for fetching. Every
/// link that the pass discovers and the host policy allows is handed back at
/// the end, unfetched, once for each URL; none of them is handed out, and
/// none goes out as turned away.
pub proof fn law_depth_limit_leaves_unfetched(
    origin: LinkModel,
    whitelist: Option<Seq<Host>>,
    blacklist: Option<Seq<Host>>,
    results: Seq<LinkModel>,
    k: int,
)
    requires
        0 <= k < results.len(),
        !results[k].crawled,
        may_crawl(results[k].host, whitelist, blacklist),
        results[k].url != origin.url,
        forall|i: int| 0 <= i < k ==> (#[trigger] results[i]).url != results[k].url,
    ensures
        ({
            let s = initial(origin, Some(1), whitelist, blacklist);
            let events = first_pass(results);
            let last = events.len() - 1;
            let leftover = sent_out(before(s, events, last), events[last]);
            &&& handed_out(before(s, events, 0), events[0]) == seq![unfetched(origin)]
            &&& handed_out(before(s, events, last), events[last]).len() == 0
            &&& has_url(leftover, results[k].url)
            &&& distinct_urls(leftover)
            &&& forall|i: int| 0 <= i < leftover.len() ==> (#[trigger] leftover[i]) == unfetched(leftover[i])
            &&& forall|i: int|
                0 <= i < last ==> !has_url(
                    #[trigger] sent_out(before(s, events, i), events[i]),
                    results[k].url,
                )
        }),
{
    let s = initial(origin, Some(1), whitelist, blacklist);
    let events = first_pass(results);
    let last = events.len() - 1;
    let url = results[k].url;
    assert(last == results.len() + 1);
    assert(events[0] is PassEnd);
    assert(events[last] is PassEnd);
    assert forall|i: int| 1 <= i < last implies (#[trigger] events[i]) == Event::Result(
        results[i - 1],
    ) by {}
    assert(within_pass(events, 1, last));
    lemma_run_step(s, events, 0);
    let s1 = before(s, events, 1);
    assert(s1.requested =~= seq![origin.url]);
    assert(s1.passes_left == Some(0nat));
    assert(!known(s1, url)) by {
        if s1.requested.contains(url) {
            let i = choose|i: int| 0 <= i < s1.requested.len() && s1.requested[i] == url;
        }
    }
    lemma_unmet_stays(s, events, 1, k + 1, url);
    lemma_frontier_waits(s, events, 1, k + 1, url);
    lemma_run_step(s, events, k + 1);
    law_discovery_is_placed(before(s, events, k + 1), results[k]);
    lemma_frontier_waits(s, events, 1, k + 2, url);
    lemma_frontier_waits(s, events, k + 2, last, url);
    lemma_frontier_waits(s, events, 1, last, url);
    law_run_valid(s, events.take(last));
    let end = before(s, events, last);
    let leftover = sent_out(end, events[last]);
    assert(leftover == end.to_crawl);
    assert forall|i: int| 0 <= i < last implies !has_url(
        #[trigger] sent_out(before(s, events, i), events[i]),
        url,
    ) by {
        let out = sent_out(before(s, events, i), events[i]);
        if has_url(out, url) {
            let n = choose|n: int| 0 <= n < out.len() && (#[trigger] out[n]).url == url;
            if i >= 1 {
                let link = results[i - 1];
                assert(out[n] == link);
                if i > k + 1 {
                    lemma_frontier_waits(s, events, k + 2, i, url);
                    lemma_frontier_waits(s, events, 1, i, url);
                    law_run_valid(s, events.take(i));
                    let at = before(s, events, i);
                    let f = choose|f: int|
                        0 <= f < at.to_crawl.len() && (#[trigger] at.to_crawl[f]).url == url;
                    assert(!at.requested.contains(at.to_crawl[f].url));
                }
            }
        }
    }
}

} // verus!
