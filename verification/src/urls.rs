//! URLs, as the `url` crate reads and writes them.

use vstd::prelude::*;

use crate::byte_path::{units_of, BytePath};
use crate::paths::is_absolute;

verus! {

/// The parts of a parsed URL that this crate reads.
#[derive(Debug)]
pub struct UrlParts {
    /// The whole URL in its normal form.
    pub text: String,
    pub scheme: String,
    pub host: Option<String>,
    /// The port, unless it is the scheme's own.
    pub port: Option<u16>,
    pub path: String,
}

/// [`UrlParts`], taken by view.
pub struct UrlView {
    pub text: Seq<char>,
    pub scheme: Seq<char>,
    pub host: Option<Seq<char>>,
    pub port: Option<u16>,
    pub path: Seq<char>,
}

impl View for UrlParts {
    type V = UrlView;

    open spec fn view(&self) -> UrlView {
        UrlView {
            text: self.text@,
            scheme: self.scheme@,
            host: match self.host {
                Some(h) => Some(h@),
                None => None,
            },
            port: self.port,
            path: self.path@,
        }
    }
}

/// What a text reads as when it is taken for a URL.
pub uninterp spec fn url_parsed(text: Seq<char>) -> Option<UrlView>;

/// `url::Url::parse` reads a text as an absolute URL, which depends on the text alone. The parts
/// are those that `as_str`, `scheme`, `host_str`, `port` and `path` give of the result.
#[verifier::external_body]
pub(crate) fn parse_url(text: &str) -> (r: Option<UrlParts>)
    ensures
        match r {
            Some(u) => url_parsed(text@) == Some(u@),
            None => url_parsed(text@) is None,
        },
{
    let u = url::Url::parse(text).ok()?;
    Some(UrlParts {
        text: u.as_str().to_string(),
        scheme: u.scheme().to_string(),
        host: u.host_str().map(|h| h.to_string()),
        port: u.port(),
        path: u.path().to_string(),
    })
}

/// A URL with another port.
pub uninterp spec fn url_with_port(text: Seq<char>, port: Option<u16>) -> Option<Seq<char>>;

/// `Url::set_port` changes the port of the URL that `text` reads as. There is no result where the
/// text is no URL or the URL can have no port.
#[verifier::external_body]
pub(crate) fn set_port(text: &str, port: Option<u16>) -> (r: Option<String>)
    ensures
        match r {
            Some(u) => url_with_port(text@, port) == Some(u@),
            None => url_with_port(text@, port) is None,
        },
{
    let mut u = url::Url::parse(text).ok()?;
    u.set_port(port).ok()?;
    Some(String::from(u))
}

/// A URL with another host.
pub uninterp spec fn url_with_host(text: Seq<char>, host: Seq<char>) -> Option<Seq<char>>;

/// `Url::set_host` changes the host of the URL that `text` reads as. There is no result where the
/// text is no URL or the URL cannot have that host.
#[verifier::external_body]
pub(crate) fn set_host(text: &str, host: &str) -> (r: Option<String>)
    ensures
        match r {
            Some(u) => url_with_host(text@, host@) == Some(u@),
            None => url_with_host(text@, host@) is None,
        },
{
    let mut u = url::Url::parse(text).ok()?;
    u.set_host(Some(host)).ok()?;
    Some(String::from(u))
}

/// A URL with another scheme.
pub uninterp spec fn url_with_scheme(text: Seq<char>, scheme: Seq<char>) -> Option<Seq<char>>;

/// `Url::set_scheme` changes the scheme of the URL that `text` reads as. There is no result where
/// the text is no URL or the URL cannot have that scheme.
#[verifier::external_body]
pub(crate) fn set_scheme(text: &str, scheme: &str) -> (r: Option<String>)
    ensures
        match r {
            Some(u) => url_with_scheme(text@, scheme@) == Some(u@),
            None => url_with_scheme(text@, scheme@) is None,
        },
{
    let mut u = url::Url::parse(text).ok()?;
    u.set_scheme(scheme).ok()?;
    Some(String::from(u))
}

/// The `file:` URL of a Unix path.
pub uninterp spec fn file_url_of(path: Seq<char>) -> Option<Seq<char>>;

/// `url::Url::from_file_path` gives the `file:` URL of a path, which on Unix depends on the path
/// alone. There is one exactly for an absolute path.
#[verifier::external_body]
pub(crate) fn file_url(path: &str) -> (r: Option<String>)
    ensures
        match r {
            Some(u) => file_url_of(path@) == Some(u@),
            None => file_url_of(path@) is None,
        },
        r is Some == is_absolute(path@),
{
    url::Url::from_file_path(path).ok().map(|u| String::from(u))
}

/// The bytes of the Unix path that a URL names.
pub uninterp spec fn url_file_path(text: Seq<char>) -> Option<Seq<u8>>;

/// `Url::to_file_path` gives the path that the URL which `text` reads as names, which on Unix
/// depends on the URL alone. It is given by its bytes. There is no result where the text is no
/// URL, or where the URL has no path or another host.
#[verifier::external_body]
pub(crate) fn file_path(text: &str) -> (r: Option<Vec<u8>>)
    ensures
        match r {
            Some(p) => url_file_path(text@) == Some(p@),
            None => url_file_path(text@) is None,
        },
{
    let path = url::Url::parse(text).ok()?.to_file_path().ok()?;
    Some(path.as_os_str().as_encoded_bytes().to_vec())
}

/// The Unix path that a URL names, by its units.
pub open spec fn named_units(text: Seq<char>) -> Option<Seq<char>> {
    match url_file_path(text) {
        Some(b) => Some(units_of(b)),
        None => None,
    }
}

/// The Unix path that a URL names, if it names one.
pub fn named_path(text: &str) -> (r: Option<BytePath>)
    ensures
        match r {
            Some(p) => named_units(text@) == Some(p@),
            None => named_units(text@) is None,
        },
{
    match file_path(text) {
        Some(b) => Some(BytePath::of_bytes(b.as_slice())),
        None => None,
    }
}

/// A URL that a text stands for where it is read from another one.
pub uninterp spec fn url_joined(base: Seq<char>, text: Seq<char>) -> Option<Seq<char>>;

/// `Url::join` reads `text` as a URL, relative to the one that `base` reads as, which depends on
/// the two texts alone. There is no result where either cannot be read.
#[verifier::external_body]
pub(crate) fn join_url(base: &str, text: &str) -> (r: Option<String>)
    ensures
        match r {
            Some(u) => url_joined(base@, text@) == Some(u@),
            None => url_joined(base@, text@) is None,
        },
{
    let u = url::Url::parse(base).ok()?.join(text).ok()?;
    Some(String::from(u))
}

/// The scheme of a URL, and nothing for a text that is no URL.
pub open spec fn scheme_of(text: Seq<char>) -> Seq<char> {
    match url_parsed(text) {
        Some(u) => u.scheme,
        None => Seq::empty(),
    }
}


/// The scheme of a text is that of the URL it reads as; where it reads as none, it has none.
pub proof fn law_schemes_are_read_from_urls(text: Seq<char>)
    ensures
        url_parsed(text) is Some ==> scheme_of(text) == (url_parsed(text)->0).scheme,
        url_parsed(text) is None ==> scheme_of(text).len() == 0,
{
}

/// A URL names a path exactly where it is a file's, and the path has the bytes that the URL names.
pub proof fn law_named_paths_keep_their_bytes(text: Seq<char>, i: int)
    ensures
        named_units(text) is Some <==> url_file_path(text) is Some,
        named_units(text) is Some ==> {
            let units = named_units(text)->0;
            let bytes = url_file_path(text)->0;
            &&& units.len() == bytes.len()
            &&& 0 <= i < bytes.len() ==> units[i] as int == bytes[i] as int
        },
{
}

} // verus!
