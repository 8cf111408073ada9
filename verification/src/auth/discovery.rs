//! MCP OAuth discovery (RFC 9728 + RFC 8414).
//!
//! A Streamable-HTTP MCP server that answers `401 Unauthorized` signals that
//! the client must authenticate. Discovery finds out how:
//!
//! 1. The server is probed with a benign request ([`discover`] judges the
//!    reply).
//! 2. If it is `401`, the `WWW-Authenticate` header is parsed for a
//!    `resource_metadata` link and a `scope` parameter.
//! 3. The Protected Resource Metadata document is looked for, at the link in
//!    the header and at the well-known paths ([`Search`]).
//! 4. The first authorization server that the document lists is picked.
//!
//! The requests themselves are made by the caller.

use vstd::prelude::*;
use vstd::string::*;

use crate::auth::challenge;
use crate::auth::challenge::{parse_www_authenticate, WwwAuthenticate, WwwAuthenticateView};
use crate::headers;
use crate::headers::Headers;
use crate::number;
use crate::text;
use crate::text::{fields_of, trimmed_end, CharClass};
use crate::weburl;
use crate::weburl::{origin_of, Url, UrlView};

verus! {

// ---------------------------------------------------------------------------
// Types
// ---------------------------------------------------------------------------

/// Outcome of probing the MCP server for OAuth requirements.
#[derive(Debug)]
pub enum AuthRequirement {
    /// The server accepted an unauthenticated request. No OAuth is needed.
    NotRequired,
    /// The server answered `401`.
    Required(OAuthDiscovery),
}

/// What is needed to start the OAuth flow against a server.
#[derive(Debug)]
pub struct OAuthDiscovery {
    /// Issuer URL of the authorization server, as the metadata of the
    /// resource gives it, or the server URL.
    pub authorization_server: String,
    /// Scopes that the resource expects. Those of the challenge go before
    /// those of the metadata.
    pub scopes: Vec<String>,
    /// The URL of the resource: the server URL unless another was given.
    pub resource: Url,
}

/// The view of an [`AuthRequirement`].
pub enum AuthRequirementView {
    NotRequired,
    Required(OAuthDiscoveryView),
}

/// The view of an [`OAuthDiscovery`].
pub struct OAuthDiscoveryView {
    pub authorization_server: Seq<char>,
    pub scopes: Seq<Seq<char>>,
    pub resource: UrlView,
}

impl View for AuthRequirement {
    type V = AuthRequirementView;

    open spec fn view(&self) -> AuthRequirementView {
        match self {
            AuthRequirement::NotRequired => AuthRequirementView::NotRequired,
            AuthRequirement::Required(d) => AuthRequirementView::Required(d@),
        }
    }
}

impl View for OAuthDiscovery {
    type V = OAuthDiscoveryView;

    open spec fn view(&self) -> OAuthDiscoveryView {
        OAuthDiscoveryView {
            authorization_server: self.authorization_server@,
            scopes: text::texts(self.scopes@),
            resource: self.resource@,
        }
    }
}

/// Protected Resource Metadata, as far as it is used.
#[derive(Debug)]
pub struct ProtectedResourceMetadata {
    pub authorization_servers: Vec<String>,
    pub scopes_supported: Vec<String>,
}

/// The view of a [`ProtectedResourceMetadata`].
pub struct MetadataView {
    pub authorization_servers: Seq<Seq<char>>,
    pub scopes_supported: Seq<Seq<char>>,
}

impl View for ProtectedResourceMetadata {
    type V = MetadataView;

    open spec fn view(&self) -> MetadataView {
        MetadataView {
            authorization_servers: text::texts(self.authorization_servers@),
            scopes_supported: text::texts(self.scopes_supported@),
        }
    }
}

// ---------------------------------------------------------------------------
// Errors
// ---------------------------------------------------------------------------

/// Why discovery gave up.
#[derive(Debug, Clone, PartialEq, Eq)]
pub enum DiscoveryError {
    /// The probe was not answered.
    ProbeFailed { server_url: String, cause: String },
    /// The probe was answered with a status that means neither "come in" nor
    /// "authenticate".
    UnexpectedStatus { server_url: String, status: String },
    /// The server refused a credential that the user supplied.
    CredentialRejected { server_url: String, header: String, challenge: Option<String> },
    /// The server URL cannot serve as the resource.
    InvalidResource { cause: String },
    /// The server URL cannot be taken apart.
    InvalidServerUrl { cause: String },
    /// Nothing says who could authorize the proxy.
    NoAuthorizationServer { server_url: String },
}

/// The view of a [`DiscoveryError`].
pub enum DiscoveryErrorView {
    ProbeFailed { server_url: Seq<char>, cause: Seq<char> },
    UnexpectedStatus { server_url: Seq<char>, status: Seq<char> },
    CredentialRejected {
        server_url: Seq<char>,
        header: Seq<char>,
        challenge: Option<Seq<char>>,
    },
    InvalidResource { cause: Seq<char> },
    InvalidServerUrl { cause: Seq<char> },
    NoAuthorizationServer { server_url: Seq<char> },
}

impl View for DiscoveryError {
    type V = DiscoveryErrorView;

    open spec fn view(&self) -> DiscoveryErrorView {
        match self {
            DiscoveryError::ProbeFailed { server_url, cause } => {
                DiscoveryErrorView::ProbeFailed { server_url: server_url@, cause: cause@ }
            },
            DiscoveryError::UnexpectedStatus { server_url, status } => {
                DiscoveryErrorView::UnexpectedStatus { server_url: server_url@, status: status@ }
            },
            DiscoveryError::CredentialRejected { server_url, header, challenge } => {
                DiscoveryErrorView::CredentialRejected {
                    server_url: server_url@,
                    header: header@,
                    challenge: text::opt_text(*challenge),
                }
            },
            DiscoveryError::InvalidResource { cause } => {
                DiscoveryErrorView::InvalidResource { cause: cause@ }
            },
            DiscoveryError::InvalidServerUrl { cause } => {
                DiscoveryErrorView::InvalidServerUrl { cause: cause@ }
            },
            DiscoveryError::NoAuthorizationServer { server_url } => {
                DiscoveryErrorView::NoAuthorizationServer { server_url: server_url@ }
            },
        }
    }
}

impl DiscoveryErrorView {
    /// What the user is told.
    pub open spec fn message(self) -> Seq<char> {
        match self {
            DiscoveryErrorView::ProbeFailed { server_url, cause } => "probe request to "@
                + server_url + " failed: "@ + cause,
            DiscoveryErrorView::UnexpectedStatus { server_url, status } => "unexpected response from "@
                + server_url + ": "@ + status + "; refusing to assume OAuth flow"@,
            DiscoveryErrorView::CredentialRejected { server_url, header, challenge } =>
                "remote MCP server at "@ + server_url + " rejected the supplied --header '"@ + header
                    + ": ...' with 401 Unauthorized"@ + (match challenge {
                    Some(s) => "; WWW-Authenticate: "@ + s,
                    None => seq![],
                })
                    + ". Refusing to fall back to OAuth because a static credential was provided; check your token or omit the header to use OAuth"@,
            DiscoveryErrorView::InvalidResource { cause } =>
                "server URL is not a valid URL; cannot use it as the OAuth resource identifier: "@
                    + cause,
            DiscoveryErrorView::InvalidServerUrl { cause } => "invalid server URL: "@ + cause,
            DiscoveryErrorView::NoAuthorizationServer { server_url } => "remote MCP server at "@
                + server_url
                + " returned 401 Unauthorized with no WWW-Authenticate header, and no Protected Resource Metadata document was discoverable at the well-known endpoints. Refusing to start an OAuth flow against an unknown authorization server. If this server uses a non-OAuth auth scheme (e.g. a static bearer token or a stateful `Mcp-Session-Id` header), re-run with --no-auth (optionally combined with --header to pass a static credential), or fix the server to emit a spec-compliant `WWW-Authenticate: Bearer resource_metadata=\"...\"` response"@,
        }
    }
}

impl DiscoveryError {
    /// What the user is told, with the cause where there is one.
    pub fn message(&self) -> (r: String)
        ensures
            r@ == self@.message(),
    {
        let mut out: String = String::new();
        match self {
            DiscoveryError::ProbeFailed { server_url, cause } => {
                out.append("probe request to ");
                out.append(server_url.as_str());
                out.append(" failed: ");
                out.append(cause.as_str());
            },
            DiscoveryError::UnexpectedStatus { server_url, status } => {
                out.append("unexpected response from ");
                out.append(server_url.as_str());
                out.append(": ");
                out.append(status.as_str());
                out.append("; refusing to assume OAuth flow");
            },
            DiscoveryError::CredentialRejected { server_url, header, challenge } => {
                out.append("remote MCP server at ");
                out.append(server_url.as_str());
                out.append(" rejected the supplied --header '");
                out.append(header.as_str());
                out.append(": ...' with 401 Unauthorized");
                match challenge {
                    Some(s) => {
                        out.append("; WWW-Authenticate: ");
                        out.append(s.as_str());
                    },
                    None => {},
                }
                out.append(
                    ". Refusing to fall back to OAuth because a static credential was provided; check your token or omit the header to use OAuth",
                );
            },
            DiscoveryError::InvalidResource { cause } => {
                out.append(
                    "server URL is not a valid URL; cannot use it as the OAuth resource identifier: ",
                );
                out.append(cause.as_str());
            },
            DiscoveryError::InvalidServerUrl { cause } => {
                out.append("invalid server URL: ");
                out.append(cause.as_str());
            },
            DiscoveryError::NoAuthorizationServer { server_url } => {
                out.append("remote MCP server at ");
                out.append(server_url.as_str());
                out.append(
                    " returned 401 Unauthorized with no WWW-Authenticate header, and no Protected Resource Metadata document was discoverable at the well-known endpoints. Refusing to start an OAuth flow against an unknown authorization server. If this server uses a non-OAuth auth scheme (e.g. a static bearer token or a stateful `Mcp-Session-Id` header), re-run with --no-auth (optionally combined with --header to pass a static credential), or fix the server to emit a spec-compliant `WWW-Authenticate: Bearer resource_metadata=\"...\"` response",
                );
            },
        }
        assert(out@ =~= self@.message());
        out
    }
}

/// The error that the probe of the server was not answered.
pub fn probe_failed(server_url: &str, cause: &str) -> (e: DiscoveryError)
    ensures
        e@ == (DiscoveryErrorView::ProbeFailed { server_url: server_url@, cause: cause@ }),
{
    DiscoveryError::ProbeFailed { server_url: server_url.to_string(), cause: cause.to_string() }
}

// ---------------------------------------------------------------------------
// The probe
// ---------------------------------------------------------------------------

/// The `Accept` header of the probe.
pub const PROBE_ACCEPT: &'static str = "application/json, text/event-stream";

/// Seconds after which the probe counts as failed.
pub const PROBE_TIMEOUT_SECS: u64 = 10;

/// The `Accept` header of requests for metadata.
pub const PRM_ACCEPT: &'static str = "application/json";

/// Seconds after which a request for metadata counts as failed.
pub const PRM_TIMEOUT_SECS: u64 = 5;

/// What the probe of the server was answered.
#[derive(Debug)]
pub struct ProbeReply {
    /// The status code.
    pub status: u16,
    /// The value of the `WWW-Authenticate` header.
    pub www_authenticate: Option<Vec<u8>>,
}

/// Does this status show that the server can be used without OAuth? Besides
/// success, `405` means that only `POST` is taken, and `400` that a session
/// is missing.
pub open spec fn is_reachable(status: u16) -> bool {
    200 <= status < 300 || status == 405 || status == 400
}

/// What the status of the probe says.
#[derive(Debug, Clone, Copy, PartialEq, Eq, Structural)]
pub enum ProbeVerdict {
    /// No OAuth is needed.
    Reachable,
    /// The server wants authentication.
    Unauthorized,
    /// The server is in no state to go on with.
    Unexpected,
}

/// What the status of the probe says.
pub open spec fn verdict_of(status: u16) -> ProbeVerdict {
    if is_reachable(status) {
        ProbeVerdict::Reachable
    } else if status == 401 {
        ProbeVerdict::Unauthorized
    } else {
        ProbeVerdict::Unexpected
    }
}

/// What the status of the probe says.
pub fn probe_verdict(status: u16) -> (r: ProbeVerdict)
    ensures
        r == verdict_of(status),
{
    if (200 <= status && status < 300) || status == 405 || status == 400 {
        ProbeVerdict::Reachable
    } else if status == 401 {
        ProbeVerdict::Unauthorized
    } else {
        ProbeVerdict::Unexpected
    }
}

/// The text by which `http::StatusCode` shows a status.
pub uninterp spec fn status_text(status: u16) -> Seq<char>;

/// `http::StatusCode::from_u16` and the `Display` of its result. Claims that
/// the text depends on the status alone, and starts with its number and a
/// space.
#[verifier::external_body]
fn show_status(status: u16) -> (r: String)
    requires
        100 <= status <= 999,
    ensures
        r@ == status_text(status),
        (number::decimal(status as nat) + " "@).is_prefix_of(r@),
{
    http::StatusCode::from_u16(status).map(|s| s.to_string()).unwrap_or_default()
}

/// Is this a byte that a header value shows as text: visible ASCII, a space
/// or a tab?
pub open spec fn is_text_byte(b: u8) -> bool {
    32 <= b < 127 || b == 9
}

/// A header value as text; `None` where it holds another byte.
pub open spec fn header_text(value: Seq<u8>) -> Option<Seq<char>> {
    if forall|i: int| 0 <= i < value.len() ==> is_text_byte(#[trigger] value[i]) {
        Some(Seq::new(value.len(), |i: int| value[i] as char))
    } else {
        None
    }
}

/// `http::HeaderValue::from_bytes` and `to_str`. Claims that there is a text
/// exactly where all bytes are visible ASCII, spaces or tabs, and that it
/// holds these characters.
#[verifier::external_body]
fn visible_text(value: &[u8]) -> (r: Option<String>)
    ensures
        text::opt_text(r) == header_text(value@),
{
    let value = http::HeaderValue::from_bytes(value).ok()?;
    value.to_str().ok().map(|s| s.to_string())
}

/// The challenge of a reply as text.
pub open spec fn challenge_of(reply: ProbeReply) -> Option<Seq<char>> {
    match reply.www_authenticate {
        Some(value) => header_text(value@),
        None => None,
    }
}

/// The name of a header by which the user supplied a credential.
pub open spec fn static_credential(headers: Map<Seq<char>, Seq<u8>>) -> Option<Seq<char>> {
    if headers.contains_key("authorization"@) {
        Some("Authorization"@)
    } else if headers.contains_key("proxy-authorization"@) {
        Some("Proxy-Authorization"@)
    } else {
        None
    }
}

/// If `headers` holds a static `Authorization` or `Proxy-Authorization`
/// header, its canonical name. A user who supplied one did not ask for OAuth.
pub fn supplied_authz_header(headers: &Headers) -> (r: Option<&'static str>)
    ensures
        text::opt_slice(r) == static_credential(headers.map()),
{
    if headers.contains("authorization") {
        Some("Authorization")
    } else if headers.contains("proxy-authorization") {
        Some("Proxy-Authorization")
    } else {
        None
    }
}

// ---------------------------------------------------------------------------
// Where metadata may be found
// ---------------------------------------------------------------------------

/// The well-known locations of the metadata of a resource at `path` of
/// `origin`: the one for the path, unless it is the root, then the one for
/// the origin.
pub open spec fn well_known(origin: Seq<char>, path: Seq<char>) -> Seq<Seq<char>> {
    let root = origin + "/.well-known/oauth-protected-resource"@;
    let suffix = text::trim_end(path, CharClass::Only('/'));
    if suffix.len() > 0 {
        seq![root + suffix, root]
    } else {
        seq![root]
    }
}

/// The well-known locations for a path of an origin, in the order to try.
pub fn prm_urls(origin: &str, path: &str) -> (out: Vec<String>)
    ensures
        text::texts(out@) == well_known(origin@, path@),
{
    let mut root: String = origin.to_string();
    root.append("/.well-known/oauth-protected-resource");
    let suffix: &str = trimmed_end(path, CharClass::Only('/'));
    let mut out: Vec<String> = Vec::new();
    if !suffix.is_empty() {
        let mut url: String = root.clone();
        url.append(suffix);
        out.push(url);
    }
    out.push(root);
    assert(text::texts(out@) =~= well_known(origin@, path@));
    out
}

/// The well-known locations for a server URL, in the order to try.
pub fn well_known_prm_urls(server_url: &str) -> (r: Result<Vec<String>, DiscoveryError>)
    ensures
        match r {
            Ok(urls) => weburl::parsed(server_url@) matches Ok(url) && weburl::origin_in(
                server_url@,
            ) matches Some(origin) && text::texts(urls@) == well_known(origin, url.path),
            Err(e) => weburl::parsed(server_url@) matches Err(cause) && e@ == (
            DiscoveryErrorView::InvalidServerUrl { cause }),
        },
{
    match Url::parse(server_url) {
        Ok(url) => match origin_of(server_url) {
            Some(origin) => Ok(prm_urls(origin.as_str(), url.path.as_str())),
            None => Ok(Vec::new()),
        },
        Err(cause) => Err(DiscoveryError::InvalidServerUrl { cause }),
    }
}

// ---------------------------------------------------------------------------
// The search for metadata
// ---------------------------------------------------------------------------

/// What a request for metadata was answered, by its status.
#[derive(Debug, Clone, Copy, PartialEq, Eq, Structural)]
pub enum PrmStatus {
    /// There is a document to read.
    Present,
    /// There is none.
    Absent,
    /// The server could not say.
    Failed,
}

/// What the status of a metadata request says.
pub open spec fn prm_status_of(status: u16) -> PrmStatus {
    if 400 <= status < 500 {
        PrmStatus::Absent
    } else if 200 <= status < 300 {
        PrmStatus::Present
    } else {
        PrmStatus::Failed
    }
}

/// What the status of a metadata request says.
pub fn prm_status(status: u16) -> (r: PrmStatus)
    ensures
        r == prm_status_of(status),
{
    if 400 <= status && status < 500 {
        PrmStatus::Absent
    } else if 200 <= status && status < 300 {
        PrmStatus::Present
    } else {
        PrmStatus::Failed
    }
}

/// What came of one request for metadata.
#[derive(Debug)]
pub enum Fetched {
    /// A document.
    Found(ProtectedResourceMetadata),
    /// The location has none.
    Absent,
    /// The request failed, or the document could not be read.
    Failed,
}

/// The view of a [`Fetched`].
pub enum FetchedView {
    Found(MetadataView),
    Absent,
    Failed,
}

impl View for Fetched {
    type V = FetchedView;

    open spec fn view(&self) -> FetchedView {
        match self {
            Fetched::Found(m) => FetchedView::Found(m@),
            Fetched::Absent => FetchedView::Absent,
            Fetched::Failed => FetchedView::Failed,
        }
    }
}

/// The view of a [`Search`].
pub struct SearchView {
    /// The server URL as it was given.
    pub server_url: Seq<char>,
    /// Did the reply carry a challenge?
    pub challenged: bool,
    /// The scopes of the challenge.
    pub scope: Option<Seq<char>>,
    /// The resource to ask tokens for.
    pub resource: UrlView,
    /// Where metadata may be found, in the order to try.
    pub candidates: Seq<Seq<char>>,
    /// How many of them were tried.
    pub tried: nat,
    /// The document, once one was found.
    pub found: Option<MetadataView>,
}

impl SearchView {
    /// The location to try next; `None` once a document was found or all
    /// locations were tried.
    pub open spec fn next(self) -> Option<Seq<char>> {
        if self.found is None && self.tried < self.candidates.len() {
            Some(self.candidates[self.tried as int])
        } else {
            None
        }
    }

    /// The search after one more location was tried.
    pub open spec fn after(self, reply: FetchedView) -> SearchView {
        SearchView {
            tried: self.tried + 1,
            found: match reply {
                FetchedView::Found(m) => Some(m),
                _ => None,
            },
            ..self
        }
    }

    /// The search after the locations were tried in turn, with these replies.
    pub open spec fn run(self, replies: Seq<FetchedView>) -> SearchView
        decreases replies.len(),
    {
        if replies.len() == 0 || self.next() is None {
            self
        } else {
            self.after(replies[0]).run(replies.drop_first())
        }
    }

    /// The scopes to ask for: those of the challenge, else those of the
    /// document, else none.
    pub open spec fn scopes(self) -> Seq<Seq<char>> {
        match self.scope {
            Some(s) => text::fields(s, CharClass::WhiteSpace),
            None => match self.found {
                Some(m) => m.scopes_supported,
                None => seq![],
            },
        }
    }

    /// The authorization server: the first that the document lists; else the
    /// server itself if it sent a challenge.
    pub open spec fn authorization_server(self) -> Option<Seq<char>> {
        if self.found matches Some(m) && m.authorization_servers.len() > 0 {
            Some(self.found->0.authorization_servers[0])
        } else if self.challenged {
            Some(self.server_url)
        } else {
            None
        }
    }

    /// What the search has come to.
    pub open spec fn conclusion(self) -> Result<OAuthDiscoveryView, DiscoveryErrorView> {
        match self.authorization_server() {
            Some(authorization_server) => Ok(
                OAuthDiscoveryView {
                    authorization_server,
                    scopes: self.scopes(),
                    resource: self.resource,
                },
            ),
            None => Err(
                DiscoveryErrorView::NoAuthorizationServer { server_url: self.server_url },
            ),
        }
    }
}

/// The search for the metadata of a server that wants authentication.
#[derive(Debug)]
pub struct Search {
    server_url: String,
    challenged: bool,
    scope: Option<String>,
    resource: Url,
    candidates: Vec<String>,
    tried: usize,
    found: Option<ProtectedResourceMetadata>,
}

impl View for Search {
    type V = SearchView;

    closed spec fn view(&self) -> SearchView {
        SearchView {
            server_url: self.server_url@,
            challenged: self.challenged,
            scope: text::opt_text(self.scope),
            resource: self.resource@,
            candidates: text::texts(self.candidates@),
            tried: self.tried as nat,
            found: match self.found {
                Some(m) => Some(m@),
                None => None,
            },
        }
    }
}

/// What the proxy reads from an optional challenge.
pub open spec fn challenge_parsed(challenge: Option<Seq<char>>) -> WwwAuthenticateView {
    match challenge {
        Some(s) => challenge::parsed(s),
        None => WwwAuthenticateView { resource_metadata: None, scope: None },
    }
}

/// The locations to try: the link of the challenge, then the well-known ones.
pub open spec fn locations(
    link: Option<Seq<char>>,
    origin: Seq<char>,
    path: Seq<char>,
) -> Seq<Seq<char>> {
    match link {
        Some(url) => seq![url] + well_known(origin, path),
        None => well_known(origin, path),
    }
}

/// The view of an optional URL.
pub open spec fn opt_url(url: Option<&Url>) -> Option<UrlView> {
    match url {
        Some(u) => Some(u@),
        None => None,
    }
}

/// The search that a `401` starts, given what the server URL was parsed to.
pub open spec fn search_of(
    server_url: Seq<char>,
    server: Result<UrlView, Seq<char>>,
    origin: Seq<char>,
    challenge: Option<Seq<char>>,
    resource: Option<UrlView>,
) -> Result<SearchView, DiscoveryErrorView> {
    match server {
        Err(cause) => if resource is None {
            Err(DiscoveryErrorView::InvalidResource { cause })
        } else {
            Err(DiscoveryErrorView::InvalidServerUrl { cause })
        },
        Ok(url) => Ok(
            SearchView {
                server_url,
                challenged: challenge is Some,
                scope: challenge_parsed(challenge).scope,
                resource: match resource {
                    Some(r) => r,
                    None => url,
                },
                candidates: locations(
                    challenge_parsed(challenge).resource_metadata,
                    origin,
                    url.path,
                ),
                tried: 0,
                found: None,
            },
        ),
    }
}

impl Search {
    /// No more locations were tried than there are.
    #[verifier::type_invariant]
    pub closed spec fn well_formed(self) -> bool {
        self.tried <= self.candidates@.len()
    }

    /// The search that a `401` starts. `server` is what the server URL was
    /// parsed to, and `origin` its origin.
    pub fn start(
        server_url: &str,
        server: &Result<Url, String>,
        origin: &str,
        challenge: Option<&str>,
        resource: Option<&Url>,
    ) -> (r: Result<Search, DiscoveryError>)
        ensures
            ({
                let parsed = match *server {
                    Ok(url) => Ok::<UrlView, Seq<char>>(url@),
                    Err(e) => Err::<UrlView, Seq<char>>(e@),
                };
                let expected = search_of(
                    server_url@,
                    parsed,
                    origin@,
                    text::opt_slice(challenge),
                    opt_url(resource),
                );
                match r {
                    Ok(search) => expected == Ok::<SearchView, DiscoveryErrorView>(search@),
                    Err(e) => expected == Err::<SearchView, DiscoveryErrorView>(e@),
                }
            }),
    {
        let url: &Url = match server {
            Ok(url) => url,
            Err(cause) => {
                let cause: String = cause.clone();
                return if resource.is_none() {
                    Err(DiscoveryError::InvalidResource { cause })
                } else {
                    Err(DiscoveryError::InvalidServerUrl { cause })
                };
            },
        };
        let www: WwwAuthenticate = match challenge {
            Some(s) => parse_www_authenticate(s),
            None => WwwAuthenticate { resource_metadata: None, scope: None },
        };
        let mut candidates: Vec<String> = Vec::new();
        let mut well_known_urls: Vec<String> = prm_urls(origin, url.path.as_str());
        if let Some(link) = www.resource_metadata {
            candidates.push(link);
        }
        let ghost link = text::texts(candidates@);
        let ghost more = text::texts(well_known_urls@);
        candidates.append(&mut well_known_urls);
        assert(text::texts(candidates@) =~= link + more);
        assert(text::texts(candidates@) =~= locations(
            challenge_parsed(text::opt_slice(challenge)).resource_metadata,
            origin@,
            url@.path,
        ));
        Ok(
            Search {
                server_url: server_url.to_string(),
                challenged: challenge.is_some(),
                scope: www.scope,
                resource: match resource {
                    Some(r) => r.clone(),
                    None => url.clone(),
                },
                candidates,
                tried: 0,
                found: None,
            },
        )
    }

    /// The location to try next; `None` once a document was found or all
    /// locations were tried.
    pub fn next(&self) -> (r: Option<&str>)
        ensures
            text::opt_slice(r) == self@.next(),
    {
        if self.found.is_none() && self.tried < self.candidates.len() {
            Some(self.candidates[self.tried].as_str())
        } else {
            None
        }
    }

    /// Takes note of what came of the request to the location that
    /// [`Search::next`] gave.
    pub fn fetched(&mut self, reply: Fetched)
        requires
            old(self)@.next() is Some,
        ensures
            final(self)@ == old(self)@.after(reply@),
    {
        assert(self.tried < self.candidates.len());
        self.tried = self.tried + 1;
        self.found = match reply {
            Fetched::Found(m) => Some(m),
            _ => None,
        };
    }

    /// What the search has come to.
    pub fn conclude(&self) -> (r: Result<OAuthDiscovery, DiscoveryError>)
        ensures
            match r {
                Ok(d) => self@.conclusion() == Ok::<OAuthDiscoveryView, DiscoveryErrorView>(d@),
                Err(e) => self@.conclusion() == Err::<OAuthDiscoveryView, DiscoveryErrorView>(e@),
            },
    {
        let scopes: Vec<String> = match &self.scope {
            Some(s) => fields_of(s.as_str(), CharClass::WhiteSpace),
            None => match &self.found {
                Some(m) => text::copied(&m.scopes_supported),
                None => Vec::new(),
            },
        };
        assert(text::texts(scopes@) =~= self@.scopes());
        let listed: Option<&String> = match &self.found {
            Some(m) => if m.authorization_servers.len() > 0 {
                Some(&m.authorization_servers[0])
            } else {
                None
            },
            None => None,
        };
        let authorization_server: String = match listed {
            Some(s) => s.clone(),
            None => if self.challenged {
                self.server_url.clone()
            } else {
                return Err(
                    DiscoveryError::NoAuthorizationServer { server_url: self.server_url.clone() },
                );
            },
        };
        Ok(
            OAuthDiscovery {
                authorization_server,
                scopes,
                resource: self.resource.clone(),
            },
        )
    }
}

// ---------------------------------------------------------------------------
// Discovery
// ---------------------------------------------------------------------------

/// What comes after the probe.
#[derive(Debug)]
pub enum Probed {
    /// OAuth is not needed.
    Settled,
    /// Metadata has to be looked for.
    Searching(Search),
}

/// What comes after the probe: nothing, a search for metadata, or an error.
pub open spec fn probed(
    server_url: Seq<char>,
    headers: Map<Seq<char>, Seq<u8>>,
    resource: Option<UrlView>,
    reply: ProbeReply,
) -> Result<Option<SearchView>, DiscoveryErrorView> {
    match verdict_of(reply.status) {
        ProbeVerdict::Reachable => Ok(None),
        ProbeVerdict::Unexpected => Err(
            DiscoveryErrorView::UnexpectedStatus {
                server_url,
                status: status_text(reply.status),
            },
        ),
        ProbeVerdict::Unauthorized => match static_credential(headers) {
            Some(header) => Err(
                DiscoveryErrorView::CredentialRejected {
                    server_url,
                    header,
                    challenge: challenge_of(reply),
                },
            ),
            None => match search_of(
                server_url,
                weburl::parsed(server_url),
                weburl::origin_in(server_url)->0,
                challenge_of(reply),
                resource,
            ) {
                Ok(search) => Ok(Some(search)),
                Err(e) => Err(e),
            },
        },
    }
}

/// Judges the reply to the probe of `server_url`. `headers` are those that
/// were sent with it: a credential among them had its chance, so a `401`
/// means that it was refused and not that OAuth is wanted.
pub fn discover(
    server_url: &str,
    headers: &Headers,
    resource: Option<&Url>,
    reply: &ProbeReply,
) -> (r: Result<Probed, DiscoveryError>)
    requires
        100 <= reply.status <= 999,
    ensures
        ({
            let expected = probed(server_url@, headers.map(), opt_url(resource), *reply);
            match r {
                Ok(Probed::Settled) => expected == Ok::<_, DiscoveryErrorView>(
                    None::<SearchView>,
                ),
                Ok(Probed::Searching(search)) => expected == Ok::<_, DiscoveryErrorView>(
                    Some(search@),
                ),
                Err(e) => expected == Err::<Option<SearchView>, _>(e@),
            }
        }),
{
    match probe_verdict(reply.status) {
        ProbeVerdict::Reachable => {
            return Ok(Probed::Settled);
        },
        ProbeVerdict::Unexpected => {
            return Err(
                DiscoveryError::UnexpectedStatus {
                    server_url: server_url.to_string(),
                    status: show_status(reply.status),
                },
            );
        },
        ProbeVerdict::Unauthorized => {},
    }
    let challenge: Option<String> = match &reply.www_authenticate {
        Some(value) => visible_text(value.as_slice()),
        None => None,
    };
    if let Some(header) = supplied_authz_header(headers) {
        return Err(
            DiscoveryError::CredentialRejected {
                server_url: server_url.to_string(),
                header: header.to_string(),
                challenge,
            },
        );
    }
    let challenge: Option<&str> = match &challenge {
        Some(s) => Some(s.as_str()),
        None => None,
    };
    let origin: String = match origin_of(server_url) {
        Some(o) => o,
        None => String::new(),
    };
    match Search::start(server_url, &Url::parse(server_url), origin.as_str(), challenge, resource) {
        Ok(search) => Ok(Probed::Searching(search)),
        Err(e) => Err(e),
    }
}

// ---------------------------------------------------------------------------
// Laws
// ---------------------------------------------------------------------------

/// A user who supplied a static credential is never sent into OAuth.
pub proof fn law_static_credential_excludes_oauth(
    server_url: Seq<char>,
    headers: Map<Seq<char>, Seq<u8>>,
    resource: Option<UrlView>,
    reply: ProbeReply,
)
    requires
        static_credential(headers) is Some,
    ensures
        probed(server_url, headers, resource, reply) matches Ok(search) ==> search is None,
{
}

/// A credential that the user gave by header is recognized, however the name
/// was written.
pub proof fn law_supplied_credentials_are_recognized(
    raw: Seq<Seq<char>>,
    env: Map<Seq<char>, Seq<char>>,
    i: int,
)
    requires
        headers::parsed(raw, env) is Ok,
        0 <= i < raw.len(),
        headers::name_and_value(raw[i]) matches Some(p) && (text::ascii_lower(p.0)
            == "authorization"@ || text::ascii_lower(p.0) == "proxy-authorization"@),
    ensures
        static_credential(headers::parsed(raw, env)->Ok_0) is Some,
{
    headers::law_given_headers_are_found(raw, env, i);
}

/// OAuth starts on `401` and on no other status.
pub proof fn law_oauth_starts_on_401_only(
    server_url: Seq<char>,
    headers: Map<Seq<char>, Seq<u8>>,
    resource: Option<UrlView>,
    reply: ProbeReply,
)
    ensures
        probed(server_url, headers, resource, reply) matches Ok(Some(_)) ==> reply.status == 401,
        is_reachable(reply.status) ==> probed(server_url, headers, resource, reply) == Ok::<
            _,
            DiscoveryErrorView,
        >(None::<SearchView>),
        !is_reachable(reply.status) && reply.status != 401 ==> probed(
            server_url,
            headers,
            resource,
            reply,
        ) is Err,
{
}

/// The link of the challenge is tried before the well-known locations, and
/// there are at most three locations.
pub proof fn law_the_link_is_tried_first(
    server_url: Seq<char>,
    server: Result<UrlView, Seq<char>>,
    origin: Seq<char>,
    challenge: Option<Seq<char>>,
    resource: Option<UrlView>,
)
    ensures
        search_of(server_url, server, origin, challenge, resource) matches Ok(search) ==> {
            &&& search.next() is Some
            &&& challenge_parsed(challenge).resource_metadata matches Some(link) ==> search.next()
                == Some(link)
            &&& search.candidates.len() <= 3
        },
{
}

/// A resource that was given takes the place of the server URL, and nothing
/// that is found changes it.
pub proof fn law_the_resource_stands(
    server_url: Seq<char>,
    server: Result<UrlView, Seq<char>>,
    origin: Seq<char>,
    challenge: Option<Seq<char>>,
    resource: Option<UrlView>,
    replies: Seq<FetchedView>,
)
    ensures
        search_of(server_url, server, origin, challenge, resource) matches Ok(search) ==> {
            &&& search.run(replies).conclusion() matches Ok(d) ==> Some(d.resource) == (
            if resource is Some {
                resource
            } else {
                server.ok()
            })
        },
{
    if search_of(server_url, server, origin, challenge, resource) is Ok {
        lemma_run_keeps(search_of(server_url, server, origin, challenge, resource)->Ok_0, replies);
    }
}

proof fn lemma_run_keeps(search: SearchView, replies: Seq<FetchedView>)
    ensures
        ({
            let end = search.run(replies);
            &&& end.server_url == search.server_url
            &&& end.challenged == search.challenged
            &&& end.scope == search.scope
            &&& end.resource == search.resource
            &&& end.candidates == search.candidates
        }),
    decreases replies.len(),
{
    if replies.len() > 0 && search.next() is Some {
        lemma_run_keeps(search.after(replies[0]), replies.drop_first());
    }
}

/// The position of the first document among `replies`; `replies.len()` if
/// there is none.
pub open spec fn first_found(replies: Seq<FetchedView>) -> int
    decreases replies.len(),
{
    if replies.len() == 0 || replies[0] is Found {
        0
    } else {
        1 + first_found(replies.drop_first())
    }
}

/// The search tries the locations in order, stops at the first document, and
/// keeps that one.
pub proof fn law_the_first_document_counts(search: SearchView, replies: Seq<FetchedView>)
    requires
        search.found is None,
        search.tried + replies.len() <= search.candidates.len(),
    ensures
        ({
            let end = search.run(replies);
            let k = first_found(replies);
            &&& 0 <= k <= replies.len()
            &&& k < replies.len() ==> {
                &&& replies[k] matches FetchedView::Found(m)
                &&& end.found == Some(m)
                &&& end.tried == search.tried + k + 1
                &&& end.next() is None
            }
            &&& k == replies.len() ==> end.found is None && end.tried == search.tried
                + replies.len()
        }),
    decreases replies.len(),
{
    if replies.len() > 0 {
        let next = search.after(replies[0]);
        let rest = replies.drop_first();
        if replies[0] is Found {
            assert(next.run(rest) == next);
        } else {
            law_the_first_document_counts(next, rest);
            let k = first_found(rest);
            if k < rest.len() {
                assert(rest[k] == replies[k + 1]);
            }
        }
    }
}

/// Whatever the replies are, the search is over once each location was tried.
pub proof fn law_the_search_ends(search: SearchView, replies: Seq<FetchedView>)
    requires
        search.tried <= search.candidates.len(),
        replies.len() >= search.candidates.len() - search.tried,
    ensures
        search.run(replies).next() is None,
    decreases replies.len(),
{
    if replies.len() > 0 && search.next() is Some {
        law_the_search_ends(search.after(replies[0]), replies.drop_first());
    }
}

/// Failed and absent documents are passed over alike.
pub proof fn law_failed_counts_as_absent(search: SearchView)
    ensures
        search.after(FetchedView::Failed) == search.after(FetchedView::Absent),
{
}

/// Scopes that the challenge names go before those of any document.
pub proof fn law_challenge_scopes_go_first(search: SearchView, scope: Seq<char>)
    requires
        search.scope == Some(scope),
    ensures
        search.conclusion() matches Ok(d) ==> d.scopes == text::fields(
            scope,
            CharClass::WhiteSpace,
        ),
{
}

/// No authorization server is made up: it is the first that a document
/// lists, or the server itself where it sent a challenge.
pub proof fn law_no_authorization_server_is_made_up(search: SearchView)
    ensures
        search.conclusion() matches Ok(d) ==> {
            ||| search.found matches Some(m) && m.authorization_servers.len() > 0
                && d.authorization_server == m.authorization_servers[0]
            ||| search.challenged && d.authorization_server == search.server_url
        },
        search.conclusion() is Err <==> !search.challenged && (search.found matches Some(m)
            ==> m.authorization_servers.len() == 0),
{
}

/// What each status of the probe leads to.
pub proof fn law_statuses_of_the_probe(status: u16)
    ensures
        verdict_of(status) is Reachable <==> (200 <= status && status <= 299) || status == 400
            || status == 405,
        verdict_of(status) is Unauthorized <==> status == 401,
        is_reachable(status) <==> verdict_of(status) is Reachable,
{
}

/// What each status of a request for metadata leads to.
pub proof fn law_statuses_of_metadata(status: u16)
    ensures
        prm_status_of(status) is Present <==> 200 <= status && status <= 299,
        prm_status_of(status) is Absent <==> 400 <= status && status <= 499,
        prm_status_of(status) is Failed <==> !(200 <= status && status <= 299) && !(400 <= status
            && status <= 499),
{
}

/// The credential of the user is looked for under two names, `Authorization`
/// first.
pub proof fn law_where_credentials_are_looked_for(headers: Map<Seq<char>, Seq<u8>>)
    ensures
        static_credential(headers) == if headers.dom().contains("authorization"@) {
            Some("Authorization"@)
        } else if headers.dom().contains("proxy-authorization"@) {
            Some("Proxy-Authorization"@)
        } else {
            None
        },
{
}

/// The challenge of a reply is its header, character by character, unless
/// that holds a byte that is no visible character.
pub proof fn law_the_challenge_is_the_header(reply: ProbeReply, i: int)
    ensures
        reply.www_authenticate is None ==> challenge_of(reply) is None,
        reply.www_authenticate matches Some(value) ==> {
            &&& 0 <= i < value@.len() && !(value@[i] == 9 || 32 <= value@[i] <= 126)
                ==> challenge_of(reply) is None
            &&& challenge_of(reply) matches Some(s) ==> s.len() == value@.len() && (0 <= i
                < s.len() ==> s[i] as u32 == value@[i] as u32)
            &&& (forall|j: int|
                0 <= j < value@.len() ==> (#[trigger] value@[j] == 9 || 32 <= value@[j] <= 126))
                ==> challenge_of(reply) is Some
        },
{
}

/// The well-known locations of a server: the one for its path, without the
/// slashes at its end, and the one for the server; only the latter where
/// nothing but slashes is left of the path.
pub proof fn law_well_known_locations(origin: Seq<char>, path: Seq<char>, slashes: Seq<char>)
    requires
        path.len() == 0 || path.last() != '/',
        forall|i: int| 0 <= i < slashes.len() ==> #[trigger] slashes[i] == '/',
    ensures
        ({
            let root = origin + "/.well-known/oauth-protected-resource"@;
            let urls = well_known(origin, path + slashes);
            &&& path.len() > 0 ==> urls.len() == 2 && urls[0] == root + path && urls[1] == root
            &&& path.len() == 0 ==> urls.len() == 1 && urls[0] == root
        }),
{
    text::law_trimming_one_end(slashes, path, CharClass::Only('/'));
}

/// What a `401` starts, short of a credential that the user supplied: a search
/// that tries the link of the challenge and then the well-known locations, for
/// the resource that was given or else the server.
pub proof fn law_a_401_starts_a_search(
    server_url: Seq<char>,
    headers: Map<Seq<char>, Seq<u8>>,
    resource: Option<UrlView>,
    reply: ProbeReply,
    url: UrlView,
)
    requires
        reply.status == 401,
        !headers.dom().contains("authorization"@),
        !headers.dom().contains("proxy-authorization"@),
        weburl::parsed(server_url) == Ok::<_, Seq<char>>(url),
    ensures
        probed(server_url, headers, resource, reply) matches Ok(Some(search)) && {
            let read = match challenge_of(reply) {
                Some(s) => challenge::parsed(s),
                None => WwwAuthenticateView { resource_metadata: None, scope: None },
            };
            let link = match read.resource_metadata {
                Some(l) => seq![l],
                None => Seq::empty(),
            };
            &&& search.server_url == server_url
            &&& search.challenged <==> challenge_of(reply) is Some
            &&& search.scope == read.scope
            &&& search.resource == if resource is Some {
                resource->0
            } else {
                url
            }
            &&& search.candidates == link + well_known(
                weburl::origin_in(server_url)->0,
                url.path,
            )
            &&& search.tried == 0
            &&& search.found is None
        },
{
    assert(Seq::<Seq<char>>::empty() + well_known(weburl::origin_in(server_url)->0, url.path)
        =~= well_known(weburl::origin_in(server_url)->0, url.path));
}

/// What the user is told where no search can be started.
pub proof fn law_why_no_search_is_started(
    server_url: Seq<char>,
    headers: Map<Seq<char>, Seq<u8>>,
    resource: Option<UrlView>,
    reply: ProbeReply,
    cause: Seq<char>,
)
    ensures
        ({
            let end = probed(server_url, headers, resource, reply);
            let supplied = headers.dom().contains("authorization"@) || headers.dom().contains(
                "proxy-authorization"@,
            );
            &&& reply.status == 401 && headers.dom().contains("authorization"@) ==> (end
                matches Err(DiscoveryErrorView::CredentialRejected {
                server_url: u,
                header,
                challenge,
            }) && u == server_url && header == "Authorization"@ && challenge == challenge_of(reply))
            &&& reply.status == 401 && !headers.dom().contains("authorization"@) && supplied ==> (
            end matches Err(DiscoveryErrorView::CredentialRejected {
                server_url: u,
                header,
                challenge,
            }) && u == server_url && header == "Proxy-Authorization"@ && challenge
                == challenge_of(reply))
            &&& reply.status == 401 && !supplied && weburl::parsed(server_url) == Err::<UrlView, _>(
                cause,
            ) && resource is None ==> (end matches Err(DiscoveryErrorView::InvalidResource {
                cause: c,
            }) && c == cause)
            &&& reply.status == 401 && !supplied && weburl::parsed(server_url) == Err::<UrlView, _>(
                cause,
            ) && resource is Some ==> (end matches Err(DiscoveryErrorView::InvalidServerUrl {
                cause: c,
            }) && c == cause)
            &&& reply.status != 401 && !(200 <= reply.status <= 299) && reply.status != 400
                && reply.status != 405 ==> (end matches Err(DiscoveryErrorView::UnexpectedStatus {
                server_url: u,
                status,
            }) && u == server_url && status == status_text(reply.status))
        }),
{
}

/// As long as no document was found, the locations are tried one after the
/// other, in their order.
pub proof fn law_locations_are_tried_in_order(search: SearchView, misses: Seq<FetchedView>)
    requires
        search.found is None,
        forall|i: int| 0 <= i < misses.len() ==> !((#[trigger] misses[i]) is Found),
        search.tried + misses.len() < search.candidates.len(),
    ensures
        search.run(misses).next() == Some(
            search.candidates[search.tried as int + misses.len()],
        ),
    decreases misses.len(),
{
    if misses.len() > 0 {
        assert(!(misses[0] is Found));
        let rest = misses.drop_first();
        assert forall|i: int| 0 <= i < rest.len() implies !((#[trigger] rest[i]) is Found) by {
            assert(rest[i] == misses[i + 1]);
        }
        law_locations_are_tried_in_order(search.after(misses[0]), rest);
    }
}

/// Where the challenge names no scope, the scopes of the document that was
/// found are asked for, whether or not there was a challenge; where there is
/// no document either, none are.
pub proof fn law_the_scopes_of_the_document_count(search: SearchView, m: MetadataView)
    requires
        search.scope is None,
    ensures
        search.found == Some(m) ==> (search.conclusion() matches Ok(d) ==> d.scopes
            == m.scopes_supported),
        search.found is None ==> (search.conclusion() matches Ok(d) ==> d.scopes.len() == 0),
{
}

/// The scopes that the challenge names are asked for word by word, whatever
/// white space stands around them and whatever a document says.
pub proof fn law_the_scopes_of_the_challenge_count(
    search: SearchView,
    words: Seq<Seq<char>>,
    gaps: Seq<Seq<char>>,
)
    requires
        gaps.len() == words.len() + 1,
        text::are_words(words, CharClass::WhiteSpace),
        text::are_gaps(gaps, CharClass::WhiteSpace),
        search.scope == Some(text::with_gaps(words, gaps)),
    ensures
        search.conclusion() matches Ok(d) ==> d.scopes == words,
{
    text::law_fields_are_the_words(words, gaps, CharClass::WhiteSpace);
}

/// From the reply to the conclusion: with a challenge that names no scope, or
/// none at all, and a first location that gives a document with an
/// authorization server, that server and the scopes of the document are what
/// is found out.
pub proof fn law_a_document_at_the_first_location(
    server_url: Seq<char>,
    server: Result<UrlView, Seq<char>>,
    origin: Seq<char>,
    challenge: Option<Seq<char>>,
    resource: Option<UrlView>,
    m: MetadataView,
    more: Seq<FetchedView>,
)
    requires
        server is Ok,
        challenge matches Some(c) ==> challenge::parsed(c).scope is None,
        m.authorization_servers.len() > 0,
    ensures
        ({
            let search = search_of(server_url, server, origin, challenge, resource)->Ok_0;
            let end = search.run(seq![FetchedView::Found(m)] + more).conclusion();
            &&& search_of(server_url, server, origin, challenge, resource) is Ok
            &&& end is Ok
            &&& end->Ok_0.authorization_server == m.authorization_servers[0]
            &&& end->Ok_0.scopes == m.scopes_supported
            &&& Some(end->Ok_0.resource) == if resource is Some {
                resource
            } else {
                server.ok()
            }
        }),
{
    let search = search_of(server_url, server, origin, challenge, resource)->Ok_0;
    let replies = seq![FetchedView::Found(m)] + more;
    assert(replies[0] == FetchedView::Found(m));
    law_the_link_is_tried_first(server_url, server, origin, challenge, resource);
    let next = search.after(replies[0]);
    assert(next.run(replies.drop_first()) == next);
}

/// The search remembers what it started with, counts the locations that were
/// tried, and keeps the document that was found as it is.
pub proof fn law_a_reply_is_taken_note_of(search: SearchView, m: MetadataView)
    ensures
        ({
            let hit = search.after(FetchedView::Found(m));
            let miss = search.after(FetchedView::Absent);
            &&& hit.found == Some(m)
            &&& miss.found is None
            &&& hit.tried == search.tried + 1
            &&& miss.tried == search.tried + 1
            &&& hit.server_url == search.server_url && miss.server_url == search.server_url
            &&& hit.challenged == search.challenged && miss.challenged == search.challenged
            &&& hit.scope == search.scope && miss.scope == search.scope
            &&& hit.resource == search.resource && miss.resource == search.resource
            &&& hit.candidates == search.candidates && miss.candidates == search.candidates
        }),
{
}

/// Where nobody can be asked for authorization, the error names the server.
pub proof fn law_nobody_to_ask(search: SearchView)
    requires
        !search.challenged,
        search.found matches Some(m) ==> m.authorization_servers.len() == 0,
    ensures
        search.conclusion() matches Err(DiscoveryErrorView::NoAuthorizationServer {
            server_url,
        }) && server_url == search.server_url,
{
}

/// What was found out is seen whole.
pub proof fn law_discoveries_are_seen_whole(
    discovery: OAuthDiscovery,
    requirement: AuthRequirement,
    metadata: ProtectedResourceMetadata,
    fetched: Fetched,
)
    ensures
        discovery@.authorization_server == discovery.authorization_server@,
        discovery@.scopes == text::texts(discovery.scopes@),
        discovery@.resource == discovery.resource@,
        metadata@.authorization_servers == text::texts(metadata.authorization_servers@),
        metadata@.scopes_supported == text::texts(metadata.scopes_supported@),
        match requirement {
            AuthRequirement::NotRequired => requirement@ is NotRequired,
            AuthRequirement::Required(d) => requirement@ is Required && requirement@->0 == d@,
        },
        match fetched {
            Fetched::Found(m) => fetched@ is Found && fetched@->0 == m@,
            Fetched::Absent => fetched@ is Absent,
            Fetched::Failed => fetched@ is Failed,
        },
{
}

/// What the user is told names the server, what it answered and what to do.
pub proof fn law_discovery_errors_say_what_is_wrong(
    server_url: Seq<char>,
    what: Seq<char>,
    challenge: Seq<char>,
)
    ensures
        ({
            let failed = DiscoveryErrorView::ProbeFailed { server_url, cause: what };
            let status = DiscoveryErrorView::UnexpectedStatus { server_url, status: what };
            let silent = DiscoveryErrorView::CredentialRejected {
                server_url,
                header: what,
                challenge: None,
            };
            let told = DiscoveryErrorView::CredentialRejected {
                server_url,
                header: what,
                challenge: Some(challenge),
            };
            let resource = DiscoveryErrorView::InvalidResource { cause: what };
            let url = DiscoveryErrorView::InvalidServerUrl { cause: what };
            let nobody = DiscoveryErrorView::NoAuthorizationServer { server_url };
            let rejected = "remote MCP server at "@ + server_url
                + " rejected the supplied --header '"@ + what + ": ...' with 401 Unauthorized"@;
            let advice =
                ". Refusing to fall back to OAuth because a static credential was provided; check your token or omit the header to use OAuth"@;
            &&& failed.message() == "probe request to "@ + server_url + " failed: "@ + what
            &&& status.message() == "unexpected response from "@ + server_url + ": "@ + what
                + "; refusing to assume OAuth flow"@
            &&& silent.message() == rejected + advice
            &&& told.message() == rejected + "; WWW-Authenticate: "@ + challenge + advice
            &&& resource.message()
                == "server URL is not a valid URL; cannot use it as the OAuth resource identifier: "@
                + what
            &&& url.message() == "invalid server URL: "@ + what
            &&& nobody.message() == "remote MCP server at "@ + server_url
                + " returned 401 Unauthorized with no WWW-Authenticate header, and no Protected Resource Metadata document was discoverable at the well-known endpoints. Refusing to start an OAuth flow against an unknown authorization server. If this server uses a non-OAuth auth scheme (e.g. a static bearer token or a stateful `Mcp-Session-Id` header), re-run with --no-auth (optionally combined with --header to pass a static credential), or fix the server to emit a spec-compliant `WWW-Authenticate: Bearer resource_metadata=\"...\"` response"@
        }),
{
    let silent = DiscoveryErrorView::CredentialRejected {
        server_url,
        header: what,
        challenge: None,
    };
    let told = DiscoveryErrorView::CredentialRejected {
        server_url,
        header: what,
        challenge: Some(challenge),
    };
    let rejected = "remote MCP server at "@ + server_url + " rejected the supplied --header '"@
        + what + ": ...' with 401 Unauthorized"@;
    let advice =
        ". Refusing to fall back to OAuth because a static credential was provided; check your token or omit the header to use OAuth"@;
    assert(silent.message() =~= rejected + advice);
    assert(told.message() =~= rejected + "; WWW-Authenticate: "@ + challenge + advice);
}

/// Errors of discovery are seen with all that they hold.
pub proof fn law_discovery_errors_are_seen_whole(error: DiscoveryError)
    ensures
        match error {
            DiscoveryError::ProbeFailed { server_url, cause } => error@ is ProbeFailed
                && error@->ProbeFailed_server_url == server_url@ && error@->ProbeFailed_cause
                == cause@,
            DiscoveryError::UnexpectedStatus { server_url, status } => error@ is UnexpectedStatus
                && error@->UnexpectedStatus_server_url == server_url@ && error@->status == status@,
            DiscoveryError::CredentialRejected { server_url, header, challenge } => error@
                is CredentialRejected && error@->CredentialRejected_server_url == server_url@
                && error@->header == header@ && error@->challenge == text::opt_text(challenge),
            DiscoveryError::InvalidResource { cause } => error@ is InvalidResource
                && error@->InvalidResource_cause == cause@,
            DiscoveryError::InvalidServerUrl { cause } => error@ is InvalidServerUrl
                && error@->InvalidServerUrl_cause == cause@,
            DiscoveryError::NoAuthorizationServer { server_url } => error@
                is NoAuthorizationServer && error@->NoAuthorizationServer_server_url == server_url@,
        },
{
}

} // verus!
