//! Absolute URLs and the resolution of extracted hrefs.
//!
//! A page's href values are resolved immediately after extraction: an href
//! that is itself an absolute URL stands as parsed; a relative reference is
//! resolved against the page's domain base (its URL with path and query
//! cleared); anything else is malformed and skipped.

use vstd::prelude::*;

use url::{ParseError, Url};

verus! {

/// What the URL parser decides about a string: an absolute URL (carrying its
/// normalized serialization), a relative reference that needs a base, or a
/// string that is no URL at all.
pub enum ParseOutcome {
    Absolute(Seq<char>),
    Relative,
    Malformed,
}

/// The outcome of `url::Url::parse` on a string; it depends on the string
/// alone.
pub uninterp spec fn parse_of(s: Seq<char>) -> ParseOutcome;

/// The outcome of resolving the relative reference `href` against the domain
/// base of the absolute URL `page`: `None` when `page` cannot be parsed or
/// `href` is rejected even with a base. It depends on the two strings alone.
pub uninterp spec fn resolve_of(page: Seq<char>, href: Seq<char>) -> Option<Seq<char>>;

/// The exec counterpart of `ParseOutcome`.
pub enum Parsed {
    Absolute(String),
    Relative,
    Malformed,
}

impl View for Parsed {
    type V = ParseOutcome;

    open spec fn view(&self) -> ParseOutcome {
        match self {
            Parsed::Absolute(t) => ParseOutcome::Absolute(t@),
            Parsed::Relative => ParseOutcome::Relative,
            Parsed::Malformed => ParseOutcome::Malformed,
        }
    }
}

/// Relies on `url::Url::parse` (and `String::from(Url)` for the
/// serialization): parsing fails with `RelativeUrlWithoutBase` exactly on a
/// relative reference, and the outcome depends on the input string alone.
#[verifier::external_body]
fn parse_url(s: &str) -> (r: Parsed)
    ensures
        r@ == parse_of(s@),
{
    match Url::parse(s) {
        Ok(u) => Parsed::Absolute(String::from(u)),
        Err(ParseError::RelativeUrlWithoutBase) => Parsed::Relative,
        Err(_) => Parsed::Malformed,
    }
}

/// Relies on `url::Url::parse`, `Url::set_path`, `Url::set_query` and
/// `Url::join`: derives the domain base of `page` by clearing path and
/// query, then resolves `href` against it by RFC 3986; the outcome depends
/// on the two strings alone.
#[verifier::external_body]
fn resolve_against_domain(page: &str, href: &str) -> (r: Option<String>)
    ensures
        match r {
            Some(t) => resolve_of(page@, href@) == Some(t@),
            None => resolve_of(page@, href@) is None,
        },
{
    let mut base = match Url::parse(page) {
        Ok(u) => u,
        Err(_) => return None,
    };
    base.set_path("");
    base.set_query(None);
    match base.join(href) {
        Ok(v) => Some(String::from(v)),
        Err(_) => None,
    }
}

/// An absolute URL, held as the serialization the URL parser produced.
#[derive(Debug)]
pub struct CrawlUrl {
    text: String,
}

impl View for CrawlUrl {
    type V = Seq<char>;

    closed spec fn view(&self) -> Seq<char> {
        self.text@
    }
}

impl CrawlUrl {
    pub fn as_str(&self) -> (r: &str)
        ensures
            r@ == self@,
    {
        self.text.as_str()
    }

    /// The URL as an owned string, as it is emitted to the result sink.
    pub fn to_text(&self) -> (r: String)
        ensures
            r@ == self@,
    {
        self.text.clone()
    }

    pub fn duplicate(&self) -> (r: CrawlUrl)
        ensures
            r@ == self@,
    {
        CrawlUrl { text: self.text.clone() }
    }
}

/// The string each URL of a sequence serializes to.
pub open spec fn urls_view(s: Seq<CrawlUrl>) -> Seq<Seq<char>> {
    s.map_values(|u: CrawlUrl| u@)
}

/// How one extracted href is resolved against the URL of the page it was
/// found on: an absolute href stands as parsed, a relative reference
/// resolves against the page's domain base, and a malformed href is
/// rejected.
pub open spec fn resolved_link(page: Seq<char>, href: Seq<char>) -> Option<Seq<char>> {
    match parse_of(href) {
        ParseOutcome::Absolute(t) => Some(t),
        ParseOutcome::Relative => resolve_of(page, href),
        ParseOutcome::Malformed => None,
    }
}

/// Resolve one href found on `page`; `None` means the href is skipped as
/// malformed.
pub fn resolve_link(page: &CrawlUrl, href: &str) -> (r: Option<CrawlUrl>)
    ensures
        match r {
            Some(u) => resolved_link(page@, href@) == Some(u@),
            None => resolved_link(page@, href@) is None,
        },
{
    match parse_url(href) {
        Parsed::Absolute(t) => Some(CrawlUrl { text: t }),
        Parsed::Relative => match resolve_against_domain(page.as_str(), href) {
            Some(t) => Some(CrawlUrl { text: t }),
            None => None,
        },
        Parsed::Malformed => None,
    }
}

/// Why a seed URL is rejected before any crawling starts.
#[derive(Debug, PartialEq, Eq, Structural)]
pub enum SeedError {
    /// The string is a relative reference; a crawl needs a complete URL.
    NotAbsolute,
    /// The string is no URL at all.
    Malformed,
}

/// Validate the seed: only a string that parses as an absolute URL may start
/// a crawl.
pub fn parse_seed(s: &str) -> (r: Result<CrawlUrl, SeedError>)
    ensures
        match r {
            Ok(u) => parse_of(s@) == ParseOutcome::Absolute(u@),
            Err(SeedError::NotAbsolute) => parse_of(s@) == ParseOutcome::Relative,
            Err(SeedError::Malformed) => parse_of(s@) == ParseOutcome::Malformed,
        },
{
    match parse_url(s) {
        Parsed::Absolute(t) => Ok(CrawlUrl { text: t }),
        Parsed::Relative => Err(SeedError::NotAbsolute),
        Parsed::Malformed => Err(SeedError::Malformed),
    }
}

} // verus!
