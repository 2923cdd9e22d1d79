//! The errors that a run can end in.

use vstd::prelude::*;

verus! {

/// Why a run ended without success.
#[derive(Clone, Copy, Debug, PartialEq, Eq, Structural)]
pub enum CrawlError {
    /// The seed is no absolute URL.
    InvalidUrl,
    /// The whitelist could not be read.
    Whitelist,
    /// The blacklist could not be read.
    Blacklist,
    /// The word list could not be read.
    WordList,
    /// The HTTP client could not be built.
    HttpClient,
    /// The DNS resolver could not be built.
    DnsResolver,
    /// The output closed while the crawl was running.
    OutputClosed,
    /// The crawl itself failed.
    Crawler,
    /// A sink closed while records were being written.
    Io,
}

/// The text that reports an error.
pub open spec fn message_of(error: CrawlError) -> Seq<char> {
    match error {
        CrawlError::InvalidUrl => "Invalid Url"@,
        CrawlError::Whitelist => "Error in reading Whitelist"@,
        CrawlError::Blacklist => "Error in reading Blacklist"@,
        CrawlError::WordList => "Error in reading Word List"@,
        CrawlError::HttpClient => "Could not build http client"@,
        CrawlError::DnsResolver => "Could not build dns resolver"@,
        CrawlError::OutputClosed => "Output Connection Closed"@,
        CrawlError::Crawler => "Something went wrong in the Crawler"@,
        CrawlError::Io => "Something Wrong with IO"@,
    }
}

impl CrawlError {
    /// The text that reports the error.
    pub fn message(&self) -> (text: &'static str)
        ensures
            text@ == message_of(*self),
    {
        match self {
            CrawlError::InvalidUrl => "Invalid Url",
            CrawlError::Whitelist => "Error in reading Whitelist",
            CrawlError::Blacklist => "Error in reading Blacklist",
            CrawlError::WordList => "Error in reading Word List",
            CrawlError::HttpClient => "Could not build http client",
            CrawlError::DnsResolver => "Could not build dns resolver",
            CrawlError::OutputClosed => "Output Connection Closed",
            CrawlError::Crawler => "Something went wrong in the Crawler",
            CrawlError::Io => "Something Wrong with IO",
        }
    }
}

} // verus!
