//! The link record: the unit of work and of output.

use vstd::prelude::*;
use crate::address::Address;
use crate::address::AddressModel;
use crate::address::depth_of;
use crate::address::Host;
use crate::address::host_listed;
use crate::address::host_view;
use crate::address::HostModel;
use crate::address::join_url;
use crate::address::listed;
use crate::address::parse_url;
use crate::address::path_depth;
use crate::address::url_join;
use crate::address::url_parse;
use crate::media::ContentKind;
use crate::media::kind_of_optional;
use crate::media::media_view;
use crate::media::MediaModel;
use crate::media::MediaType;
use crate::media::mime_parse;
use crate::media::same_essence;
use crate::text::same_text;

verus! {

/// What a link points at, by its scheme.
#[derive(Clone, Copy, Debug, PartialEq, Eq, Structural)]
pub enum LinkType {
    /// A `mailto:` address.
    Mail,
    /// A `tel:` number.
    PhoneNo,
    /// Anything else: an ordinary page.
    Other,
}

/// One discovered URL with what is known about it.
///
/// The URL is the identity of a link: `==` compares nothing else.
#[derive(Debug)]
pub struct Link {
    /// The canonical absolute URL.
    pub url: String,
    /// The host of `url`, if it has one.
    pub host: Option<Host>,
    /// The number of path segments of `url`.
    pub depth: usize,
    /// The media type of the response, once fetched.
    pub content_type: Option<MediaType>,
    /// The IPv4 address that `host` resolved to, as a number.
    pub ipv4: Option<u32>,
    /// The IPv6 address that `host` resolved to, as a number.
    pub ipv6: Option<u128>,
    /// The kind of link, fixed at construction.
    pub link_type: LinkType,
    /// Whether a fetch has been attempted.
    pub crawled: bool,
    /// Whether a trigger word stands in the fetched body.
    pub contains_words: bool,
}

/// What a [`Link`] stands for.
pub struct LinkModel {
    pub url: Seq<char>,
    pub host: Option<HostModel>,
    pub depth: nat,
    pub content_type: Option<MediaModel>,
    pub ipv4: Option<u32>,
    pub ipv6: Option<u128>,
    pub link_type: LinkType,
    pub crawled: bool,
    pub contains_words: bool,
}

impl View for Link {
    type V = LinkModel;

    open spec fn view(&self) -> LinkModel {
        LinkModel {
            url: self.url@,
            host: host_view(self.host),
            depth: self.depth as nat,
            content_type: media_view(self.content_type),
            ipv4: self.ipv4,
            ipv6: self.ipv6,
            link_type: self.link_type,
            crawled: self.crawled,
            contains_words: self.contains_words,
        }
    }
}

/// The views of an optional link.
pub open spec fn link_view(link: Option<Link>) -> Option<LinkModel> {
    match link {
        Some(l) => Some(l@),
        None => None,
    }
}

/// The kind of link that a scheme stands for.
pub open spec fn link_type_of(scheme: Seq<char>) -> LinkType {
    if scheme == "mailto"@ {
        LinkType::Mail
    } else if scheme == "tel"@ {
        LinkType::PhoneNo
    } else {
        LinkType::Other
    }
}

/// The media type that a `Content-Type` header gives, if there is a header
/// and it parses.
pub open spec fn header_media(header: Option<Seq<char>>) -> Option<MediaModel> {
    match header {
        Some(h) => mime_parse(h),
        None => None,
    }
}

/// The text of an optional string slice.
pub open spec fn slice_view(text: Option<&str>) -> Option<Seq<char>> {
    match text {
        Some(t) => Some(t@),
        None => None,
    }
}

/// The link that has just been discovered at `address`: nothing fetched,
/// nothing resolved.
pub open spec fn fresh_link(address: AddressModel) -> LinkModel {
    LinkModel {
        url: address.href,
        host: address.host,
        depth: path_depth(address.path),
        content_type: None,
        ipv4: None,
        ipv6: None,
        link_type: link_type_of(address.scheme),
        crawled: false,
        contains_words: false,
    }
}

/// The same link as it was when discovered: its identity, with nothing
/// fetched and nothing resolved.
pub open spec fn unfetched(link: LinkModel) -> LinkModel {
    LinkModel {
        content_type: None,
        ipv4: None,
        ipv6: None,
        crawled: false,
        contains_words: false,
        ..link
    }
}

/// Two records are of the same link: they agree in the URL and in what was
/// derived from it when the link was made.
pub open spec fn same_identity(a: LinkModel, b: LinkModel) -> bool {
    a.url == b.url && a.host == b.host && a.depth == b.depth && a.link_type == b.link_type
}

/// The link that an absolute URL in text form gives.
pub open spec fn link_from_text(url: Seq<char>) -> Option<LinkModel> {
    match url_parse(url) {
        Some(address) => Some(fresh_link(address)),
        None => None,
    }
}

/// The link that a reference gives once resolved against a base URL.
pub open spec fn link_from_reference(reference: Seq<char>, base: Seq<char>) -> Option<
    LinkModel,
> {
    match url_join(base, reference) {
        Some(joined) => link_from_text(joined),
        None => None,
    }
}

/// The host policy. With a whitelist, a link may be crawled when it has a host
/// and the list names it. Without one but with a blacklist, it may be crawled
/// when it has no host or the list does not name it. With neither, it may not.
pub open spec fn may_crawl(
    host: Option<HostModel>,
    whitelist: Option<Seq<Host>>,
    blacklist: Option<Seq<Host>>,
) -> bool {
    match whitelist {
        Some(allowed) => host matches Some(h) && host_listed(allowed, h),
        None => match blacklist {
            Some(denied) => !(host matches Some(h) && host_listed(denied, h)),
            None => false,
        },
    }
}

/// The elements of an optional list.
pub open spec fn list_view(list: Option<Vec<Host>>) -> Option<Seq<Host>> {
    match list {
        Some(l) => Some(l@),
        None => None,
    }
}

/// `media` has the essence of one of `required`.
pub open spec fn essence_listed(required: Seq<MediaType>, media: MediaModel) -> bool {
    exists|i: int| 0 <= i < required.len() && same_essence((#[trigger] required[i])@, media)
}

impl Clone for Link {
    fn clone(&self) -> (out: Self)
        ensures
            out == *self,
    {
        Link {
            url: self.url.clone(),
            host: match &self.host {
                Some(h) => Some(h.clone()),
                None => None,
            },
            depth: self.depth,
            content_type: match &self.content_type {
                Some(m) => Some(m.clone()),
                None => None,
            },
            ipv4: self.ipv4,
            ipv6: self.ipv6,
            link_type: self.link_type,
            crawled: self.crawled,
            contains_words: self.contains_words,
        }
    }
}

impl Link {
    /// Builds a link at `url` with the given facts. The media type is read
    /// from the `Content-Type` header, if one is given and it parses.
    pub fn new(
        url: &Address,
        content_type: Option<&str>,
        ipv4: Option<u32>,
        ipv6: Option<u128>,
        crawled: bool,
        link_type: LinkType,
        contains_words: bool,
    ) -> (link: Link)
        ensures
            link@ == (LinkModel {
                url: url@.href,
                host: url@.host,
                depth: path_depth(url@.path),
                content_type: header_media(slice_view(content_type)),
                ipv4,
                ipv6,
                link_type,
                crawled,
                contains_words,
            }),
    {
        let host = match &url.host {
            Some(h) => Some(h.clone()),
            None => None,
        };
        let content_type = match content_type {
            Some(header) => Self::get_mime(header),
            None => None,
        };
        Link {
            url: url.href.clone(),
            host,
            depth: depth_of(url.path.as_str()),
            content_type,
            ipv4,
            ipv6,
            crawled,
            link_type,
            contains_words,
        }
    }

    /// The link at an absolute URL given as text; `None` where the text is no
    /// absolute URL.
    pub fn new_from_str(url: &str) -> (link: Option<Link>)
        ensures
            link_view(link) == link_from_text(url@),
    {
        let parsed = match parse_url(url) {
            Some(x) => x,
            None => return None,
        };
        Some(Self::new_from_url(&parsed))
    }

    /// The freshly discovered link at `url`.
    pub fn new_from_url(url: &Address) -> (link: Link)
        ensures
            link@ == fresh_link(url@),
    {
        Self::new(url, None, None, None, false, Self::get_link_type(url), false)
    }

    /// The link that `url` names relative to `base_url`; `None` where the base
    /// is no absolute URL or the reference cannot be resolved against it.
    pub fn new_relative(url: &str, base_url: &str) -> (link: Option<Link>)
        ensures
            link_view(link) == link_from_reference(url@, base_url@),
    {
        match join_url(base_url, url) {
            Some(x) => Self::new_from_str(x.as_str()),
            None => None,
        }
    }

    /// This link as it was when discovered.
    pub fn unfetched(&self) -> (link: Link)
        ensures
            link@ == unfetched(self@),
    {
        Link {
            url: self.url.clone(),
            host: match &self.host {
                Some(h) => Some(h.clone()),
                None => None,
            },
            depth: self.depth,
            content_type: None,
            ipv4: None,
            ipv6: None,
            link_type: self.link_type,
            crawled: false,
            contains_words: false,
        }
    }

    /// Evaluates the host policy for this link.
    pub fn should_crawl(
        &self,
        whitelist_host: &Option<Vec<Host>>,
        blacklist_host: &Option<Vec<Host>>,
    ) -> (allowed: bool)
        ensures
            allowed == may_crawl(self@.host, list_view(*whitelist_host), list_view(*blacklist_host)),
    {
        if let Some(x) = whitelist_host {
            return self.check_host(x, false);
        }
        if let Some(x) = blacklist_host {
            return !self.check_host(x, false);
        }
        false
    }

    /// Whether the list names this link's host; `default` where it has none.
    fn check_host(&self, required_host: &Vec<Host>, default: bool) -> (found: bool)
        ensures
            found == match self@.host {
                Some(h) => host_listed(required_host@, h),
                None => default,
            },
    {
        match &self.host {
            Some(x) => listed(required_host, x),
            None => default,
        }
    }

    /// Records what the resolver found. Nothing else changes.
    pub fn update_dns(&mut self, ipv4: Option<u32>, ipv6: Option<u128>)
        ensures
            final(self)@ == (LinkModel { ipv4, ipv6, ..old(self)@ }),
    {
        self.ipv4 = ipv4;
        self.ipv6 = ipv6;
    }

    /// Records a successful response: the media type that its `Content-Type`
    /// header gives, absent where there is no header or it does not parse, and
    /// that the link has been crawled. Nothing else changes.
    pub fn update_from_response(&mut self, content_type: Option<&str>)
        ensures
            final(self)@ == (LinkModel {
                content_type: header_media(slice_view(content_type)),
                crawled: true,
                ..old(self)@
            }),
    {
        self.content_type = match content_type {
            Some(header) => Self::get_mime(header),
            None => None,
        };
        self.crawled = true;
    }

    /// The media type in a `Content-Type` header, if it parses.
    fn get_mime(header: &str) -> (media: Option<MediaType>)
        ensures
            media_view(media) == mime_parse(header@),
    {
        MediaType::parse(header)
    }

    /// Whether the link's media type has the essence of one of
    /// `required_mime`. A link without a media type matches none.
    pub fn check_mime_from_list(&self, required_mime: &Vec<MediaType>) -> (found: bool)
        ensures
            found == match self@.content_type {
                Some(media) => essence_listed(required_mime@, media),
                None => false,
            },
    {
        if let Some(c) = &self.content_type {
            let mut i: usize = 0;
            while i < required_mime.len()
                invariant
                    i <= required_mime.len(),
                    self@.content_type == Some(c@),
                    forall|j: int|
                        0 <= j < i ==> !same_essence((#[trigger] required_mime@[j])@, c@),
                decreases required_mime.len() - i,
            {
                if required_mime[i].same_essence(c) {
                    return true;
                }
                i += 1;
            }
        }
        false
    }

    /// What the response body is, by the link's media type.
    pub fn content_kind(&self) -> (kind: ContentKind)
        ensures
            kind == kind_of_optional(self@.content_type),
    {
        match &self.content_type {
            Some(media) => media.kind(),
            None => ContentKind::Other,
        }
    }

    /// Classifies a URL by its scheme.
    fn get_link_type(url: &Address) -> (kind: LinkType)
        ensures
            kind == link_type_of(url@.scheme),
    {
        if same_text(url.scheme.as_str(), "mailto") {
            LinkType::Mail
        } else if same_text(url.scheme.as_str(), "tel") {
            LinkType::PhoneNo
        } else {
            LinkType::Other
        }
    }
}

impl PartialEq for Link {
    fn eq(&self, other: &Self) -> (same: bool) {
        same_text(self.url.as_str(), other.url.as_str())
    }
}

impl Eq for Link {

}

impl vstd::std_specs::cmp::PartialEqSpecImpl for Link {
    open spec fn obeys_eq_spec() -> bool {
        true
    }

    open spec fn eq_spec(&self, other: &Self) -> bool {
        self.url@ == other.url@
    }
}

/// The views of a list of links.
pub open spec fn links_view(links: Seq<Link>) -> Seq<LinkModel> {
    links.map_values(|link: Link| link@)
}

/// Some link of `links` has the URL `url`.
pub open spec fn has_url(links: Seq<LinkModel>, url: Seq<char>) -> bool {
    exists|i: int| 0 <= i < links.len() && (#[trigger] links[i]).url == url
}

/// No two links of `links` have the same URL.
pub open spec fn distinct_urls(links: Seq<LinkModel>) -> bool {
    forall|i: int, j: int|
        0 <= i < j < links.len() ==> (#[trigger] links[i]).url != (#[trigger] links[j]).url
}

/// Whether a link with this URL is in the list.
pub fn holds_url(links: &Vec<Link>, url: &str) -> (found: bool)
    ensures
        found == has_url(links_view(links@), url@),
{
    let mut i: usize = 0;
    while i < links.len()
        invariant
            i <= links.len(),
            forall|j: int| 0 <= j < i ==> (#[trigger] links_view(links@)[j]).url != url@,
        decreases links.len() - i,
    {
        if same_text(links[i].url.as_str(), url) {
            assert(links_view(links@)[i as int].url == url@);
            return true;
        }
        i += 1;
    }
    false
}

/// The identity of a link never changes: taking in a response, taking in
/// addresses and going back to the state of discovery all leave the URL, the
/// host, the depth and the kind of link as they are.
pub proof fn law_identity_is_kept(
    link: LinkModel,
    header: Option<Seq<char>>,
    ipv4: Option<u32>,
    ipv6: Option<u128>,
)
    ensures
        same_identity(
            LinkModel { content_type: header_media(header), crawled: true, ..link },
            link,
        ),
        same_identity(LinkModel { ipv4, ipv6, ..link }, link),
        same_identity(unfetched(link), link),
{
}

} // verus!
