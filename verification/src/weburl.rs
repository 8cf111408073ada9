//! URLs, as far as the proxy looks into them.
//!
//! Parsing is the work of the `url` crate. What comes out is kept as plain
//! text, so that every rule about URLs can be stated and proved.

use vstd::prelude::*;
use vstd::string::*;

use crate::number;
use crate::text;
use crate::text::copied_option;

verus! {

/// The view of a [`Url`].
pub struct UrlView {
    pub serialization: Seq<char>,
    pub scheme: Seq<char>,
    pub host: Option<Seq<char>>,
    pub port: Option<u16>,
    pub path: Seq<char>,
    pub fragment: Option<Seq<char>>,
}

/// An absolute URL.
#[derive(Debug, PartialEq, Eq)]
pub struct Url {
    /// The whole URL in its normal form.
    pub serialization: String,
    /// What stands before the first colon, in lower case.
    pub scheme: String,
    /// The host, if the URL has one. IPv6 addresses stand in brackets.
    pub host: Option<String>,
    /// The port, unless it is the one that the scheme implies.
    pub port: Option<u16>,
    /// The path, with its leading slash.
    pub path: String,
    /// What stands behind the `#`, if there is one.
    pub fragment: Option<String>,
}

impl View for Url {
    type V = UrlView;

    open spec fn view(&self) -> UrlView {
        UrlView {
            serialization: self.serialization@,
            scheme: self.scheme@,
            host: text::opt_text(self.host),
            port: self.port,
            path: self.path@,
            fragment: text::opt_text(self.fragment),
        }
    }
}

/// What `url::Url::parse` makes of `input`: the parts of the URL, or the text
/// of the error.
pub uninterp spec fn parsed(input: Seq<char>) -> Result<UrlView, Seq<char>>;

/// The ASCII serialization of the origin of the URL that `input` is parsed
/// to; `None` where it is no URL.
pub uninterp spec fn origin(input: Seq<char>) -> Option<Seq<char>>;

/// `url::Url::parse`, with what `as_str`, `scheme`, `host_str`, `port`, `path`
/// and `fragment` give for the result. Claims that the parts, or the
/// text of the error, depend on the input alone.
#[verifier::external_body]
fn parse_url(input: &str) -> (r: Result<Url, String>)
    ensures
        match r {
            Ok(url) => parsed(input@) == Ok::<UrlView, Seq<char>>(url@),
            Err(e) => parsed(input@) == Err::<UrlView, Seq<char>>(e@),
        },
{
    match url::Url::parse(input) {
        Ok(u) => Ok(
            Url {
                serialization: u.as_str().to_string(),
                scheme: u.scheme().to_string(),
                host: u.host_str().map(|s| s.to_string()),
                port: u.port(),
                path: u.path().to_string(),
                fragment: u.fragment().map(|s| s.to_string()),
            },
        ),
        Err(e) => Err(e.to_string()),
    }
}

/// Is this the URL of a web server?
pub open spec fn is_web(url: UrlView) -> bool {
    url.scheme == "http"@ || url.scheme == "https"@
}

/// The origin of the URL of a web server: its scheme, its host, and its port
/// unless the scheme implies it.
pub open spec fn web_origin(url: UrlView) -> Seq<char> {
    url.scheme + "://"@ + url.host->0 + (match url.port {
        Some(port) => ":"@ + number::decimal(port as nat),
        None => seq![],
    })
}

/// The origin of the URL that `input` is parsed to.
pub open spec fn origin_in(input: Seq<char>) -> Option<Seq<char>> {
    match parsed(input) {
        Ok(url) => if is_web(url) {
            Some(web_origin(url))
        } else {
            origin(input)
        },
        Err(_) => None,
    }
}

/// `url::Url::origin` and `url::Origin::ascii_serialization`, on what
/// `url::Url::parse` makes of the input. Claims that the text depends on the
/// input alone, that there is one exactly where the input is a URL, and that
/// for a web server it is made of scheme, host and port.
#[verifier::external_body]
pub(crate) fn origin_of(input: &str) -> (r: Option<String>)
    ensures
        text::opt_text(r) == origin(input@),
        parsed(input@) is Ok ==> r is Some,
        match parsed(input@) {
            Ok(u) => is_web(u) ==> text::opt_text(r) == Some(web_origin(u)),
            Err(_) => r is None,
        },
{
    url::Url::parse(input).ok().map(|u| u.origin().ascii_serialization())
}

impl Url {
    /// Parse an absolute URL; the error is for the user to read.
    pub fn parse(input: &str) -> (r: Result<Url, String>)
        ensures
            match r {
                Ok(url) => parsed(input@) == Ok::<UrlView, Seq<char>>(url@),
                Err(e) => parsed(input@) == Err::<UrlView, Seq<char>>(e@),
            },
    {
        parse_url(input)
    }

    /// The whole URL in its normal form.
    pub fn as_str(&self) -> (r: &str)
        ensures
            r@ == self@.serialization,
    {
        self.serialization.as_str()
    }
}

impl Clone for Url {
    fn clone(&self) -> (r: Url)
        ensures
            r@ == self@,
    {
        Url {
            serialization: self.serialization.clone(),
            scheme: self.scheme.clone(),
            host: copied_option(&self.host),
            port: self.port,
            path: self.path.clone(),
            fragment: copied_option(&self.fragment),
        }
    }
}

// ---------------------------------------------------------------------------
// Laws
// ---------------------------------------------------------------------------

/// The origin of a web server is its scheme and host, and its port where that
/// is not implied; a text that is no URL has none.
pub proof fn law_origins(input: Seq<char>, url: UrlView, host: Seq<char>, cause: Seq<char>)
    requires
        url.host == Some(host),
        url.scheme == "http"@ || url.scheme == "https"@,
    ensures
        parsed(input) == Ok::<_, Seq<char>>(url) && url.port is None ==> origin_in(input) == Some(
            url.scheme + "://"@ + host,
        ),
        parsed(input) == Ok::<_, Seq<char>>(url) && url.port is Some ==> origin_in(input) == Some(
            url.scheme + "://"@ + host + ":"@ + number::decimal(url.port->0 as nat),
        ),
        parsed(input) == Err::<UrlView, _>(cause) ==> origin_in(input) is None,
{
    assert(url.scheme + "://"@ + host + Seq::<char>::empty() =~= url.scheme + "://"@ + host);
    if url.port is Some {
        let port = number::decimal(url.port->0 as nat);
        assert(url.scheme + "://"@ + host + (":"@ + port) =~= url.scheme + "://"@ + host + ":"@
            + port);
    }
}

/// A URL is seen with all its parts.
pub proof fn law_urls_are_seen_whole(url: Url)
    ensures
        url@.serialization == url.serialization@,
        url@.scheme == url.scheme@,
        url@.host is Some <==> url.host is Some,
        url.host is Some ==> url@.host->0 == url.host->0@,
        url@.port == url.port,
        url@.path == url.path@,
        url@.fragment is Some <==> url.fragment is Some,
        url.fragment is Some ==> url@.fragment->0 == url.fragment->0@,
{
}

} // verus!
