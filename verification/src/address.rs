//! Absolute URLs and hosts as plain values. Parsing, joining and rewriting are
//! done by the `url` crate; what comes back is held here as text and integers
//! so that the rest of the library can reason about it.

use vstd::prelude::*;
use crate::text::chars_of;
use crate::text::same_text;

verus! {

/// The host of a URL: a domain name, or an IP address held as its number.
#[derive(Debug, PartialEq, Eq)]
pub enum Host {
    Domain(String),
    Ipv4(u32),
    Ipv6(u128),
}

/// What a [`Host`] stands for.
pub enum HostModel {
    Domain(Seq<char>),
    Ipv4(u32),
    Ipv6(u128),
}

impl View for Host {
    type V = HostModel;

    open spec fn view(&self) -> HostModel {
        match self {
            Host::Domain(name) => HostModel::Domain(name@),
            Host::Ipv4(bits) => HostModel::Ipv4(*bits),
            Host::Ipv6(bits) => HostModel::Ipv6(*bits),
        }
    }
}

impl Clone for Host {
    fn clone(&self) -> (out: Self)
        ensures
            out == *self,
    {
        match self {
            Host::Domain(name) => Host::Domain(name.clone()),
            Host::Ipv4(bits) => Host::Ipv4(*bits),
            Host::Ipv6(bits) => Host::Ipv6(*bits),
        }
    }
}

impl Host {
    /// Two hosts are the same when they are of the same kind and hold the same
    /// name or address.
    pub fn same(&self, other: &Host) -> (same: bool)
        ensures
            same == (self@ == other@),
    {
        match (self, other) {
            (Host::Domain(a), Host::Domain(b)) => same_text(a.as_str(), b.as_str()),
            (Host::Ipv4(a), Host::Ipv4(b)) => *a == *b,
            (Host::Ipv6(a), Host::Ipv6(b)) => *a == *b,
            _ => false,
        }
    }
}

/// The views of an optional host.
pub open spec fn host_view(host: Option<Host>) -> Option<HostModel> {
    match host {
        Some(h) => Some(h@),
        None => None,
    }
}

/// `host` is one of `hosts`.
pub open spec fn host_listed(hosts: Seq<Host>, host: HostModel) -> bool {
    exists|i: int| 0 <= i < hosts.len() && (#[trigger] hosts[i])@ == host
}

/// Membership in a host list.
pub fn listed(hosts: &Vec<Host>, host: &Host) -> (found: bool)
    ensures
        found == host_listed(hosts@, host@),
{
    let mut i: usize = 0;
    while i < hosts.len()
        invariant
            i <= hosts.len(),
            forall|j: int| 0 <= j < i ==> (#[trigger] hosts@[j])@ != host@,
        decreases hosts.len() - i,
    {
        if hosts[i].same(host) {
            return true;
        }
        i += 1;
    }
    false
}

/// An absolute URL, as the `url` crate parsed it.
#[derive(Debug, PartialEq, Eq)]
pub struct Address {
    /// The canonical serialization.
    pub href: String,
    /// The scheme, lower-cased, without the colon.
    pub scheme: String,
    /// The host, if the URL has one.
    pub host: Option<Host>,
    /// The path component.
    pub path: String,
}

/// What an [`Address`] stands for.
pub struct AddressModel {
    pub href: Seq<char>,
    pub scheme: Seq<char>,
    pub host: Option<HostModel>,
    pub path: Seq<char>,
}

impl View for Address {
    type V = AddressModel;

    open spec fn view(&self) -> AddressModel {
        AddressModel {
            href: self.href@,
            scheme: self.scheme@,
            host: host_view(self.host),
            path: self.path@,
        }
    }
}

impl Address {
    /// Parses an absolute URL; `None` where `input` is none.
    pub fn parse(input: &str) -> (out: Option<Address>)
        ensures
            out matches Some(address) ==> url_parse(input@) == Some(address@),
            out is None ==> url_parse(input@) is None,
    {
        parse_url(input)
    }
}

/// The absolute URL that `Url::parse` of the `url` crate reads from `input`,
/// or `None` where it reports an error.
pub uninterp spec fn url_parse(input: Seq<char>) -> Option<AddressModel>;

/// The serialization of the URL that `Url::join` gives for `reference`
/// against the URL parsed from `base`, or `None` where either step reports an
/// error.
pub uninterp spec fn url_join(base: Seq<char>, reference: Seq<char>) -> Option<Seq<char>>;

/// The serialization of the URL parsed from `url` after `Url::set_path` has
/// replaced its path by `path`, or `None` where `url` does not parse.
pub uninterp spec fn url_with_path(url: Seq<char>, path: Seq<char>) -> Option<Seq<char>>;

/// The host that `Host::parse` of the `url` crate reads from `input`, or
/// `None` where it reports an error.
pub uninterp spec fn host_parse(input: Seq<char>) -> Option<HostModel>;

/// Parses an absolute URL.
///
/// Trusted: calls `url::Url::parse` and copies the serialization, scheme, host
/// and path of the result into an [`Address`]. The contract only gives the
/// outcome its name, [`url_parse`]: the same input always parses alike.
#[verifier::external_body]
pub(crate) fn parse_url(input: &str) -> (out: Option<Address>)
    ensures
        out matches Some(address) ==> url_parse(input@) == Some(address@),
        out is None ==> url_parse(input@) is None,
{
    let parsed = url::Url::parse(input).ok()?;
    let host = match parsed.host() {
        Some(url::Host::Domain(name)) => Some(Host::Domain(name.to_string())),
        Some(url::Host::Ipv4(address)) => Some(Host::Ipv4(u32::from(address))),
        Some(url::Host::Ipv6(address)) => Some(Host::Ipv6(u128::from(address))),
        None => None,
    };
    Some(Address {
        href: parsed.as_str().to_string(),
        scheme: parsed.scheme().to_string(),
        host,
        path: parsed.path().to_string(),
    })
}

/// Resolves `reference` against the absolute URL `base`.
///
/// Trusted: calls `url::Url::parse` on `base` and `url::Url::join` on the
/// result, and returns the serialization. The contract only gives the outcome
/// its name, [`url_join`].
#[verifier::external_body]
pub(crate) fn join_url(base: &str, reference: &str) -> (out: Option<String>)
    ensures
        out matches Some(joined) ==> url_join(base@, reference@) == Some(joined@),
        out is None ==> url_join(base@, reference@) is None,
{
    let joined = url::Url::parse(base).ok()?.join(reference).ok()?;
    Some(joined.as_str().to_string())
}

/// Replaces the path of the absolute URL `url`.
///
/// Trusted: calls `url::Url::parse` and then `url::Url::set_path`, and returns
/// the serialization. The contract only gives the outcome its name,
/// [`url_with_path`].
#[verifier::external_body]
pub(crate) fn replace_path(url: &str, path: &str) -> (out: Option<String>)
    ensures
        out matches Some(changed) ==> url_with_path(url@, path@) == Some(changed@),
        out is None ==> url_with_path(url@, path@) is None,
{
    let mut parsed = url::Url::parse(url).ok()?;
    parsed.set_path(path);
    Some(parsed.as_str().to_string())
}

/// Parses a host name or address.
///
/// Trusted: calls `url::Host::parse` and copies the variant it returns. The
/// contract only gives the outcome its name, [`host_parse`].
#[verifier::external_body]
pub(crate) fn parse_host(input: &str) -> (out: Option<Host>)
    ensures
        out matches Some(host) ==> host_parse(input@) == Some(host@),
        out is None ==> host_parse(input@) is None,
{
    match url::Host::parse(input).ok()? {
        url::Host::Domain(name) => Some(Host::Domain(name)),
        url::Host::Ipv4(address) => Some(Host::Ipv4(u32::from(address))),
        url::Host::Ipv6(address) => Some(Host::Ipv6(u128::from(address))),
    }
}

/// How many times `c` stands in `s` from position `from` on.
pub open spec fn count_from(s: Seq<char>, c: char, from: int) -> nat
    decreases s.len() - from,
{
    if from < 0 || from >= s.len() {
        0
    } else if s[from] == c {
        1 + count_from(s, c, from + 1)
    } else {
        count_from(s, c, from + 1)
    }
}

/// The number of segments of a path: a path that starts with a slash has one
/// segment after each slash, any other path has none.
pub open spec fn path_depth(path: Seq<char>) -> nat {
    if path.len() > 0 && path[0] == '/' {
        count_from(path, '/', 0)
    } else {
        0
    }
}

/// There are no more occurrences than positions.
pub proof fn lemma_count_bound(s: Seq<char>, c: char, from: int)
    requires
        0 <= from <= s.len(),
    ensures
        count_from(s, c, from) <= s.len() - from,
    decreases s.len() - from,
{
    if from < s.len() {
        lemma_count_bound(s, c, from + 1);
    }
}

/// Counts the segments of a path.
pub fn depth_of(path: &str) -> (depth: usize)
    ensures
        depth == path_depth(path@),
{
    let chars = chars_of(path);
    if chars.len() == 0 || chars[0] != '/' {
        return 0;
    }
    let mut depth: usize = 0;
    let mut i: usize = chars.len();
    while i > 0
        invariant
            i <= chars.len(),
            depth == count_from(chars@, '/', i as int),
        decreases i,
    {
        i -= 1;
        proof {
            lemma_count_bound(chars@, '/', i as int);
        }
        if chars[i] == '/' {
            depth += 1;
        }
    }
    depth
}

} // verus!
