//! The command line and the rules that its values obey.
//!
//! `hyper-mcp-remote` is spawned by an MCP client as a stdio server and
//! proxies that connection to a remote server that speaks Streamable HTTP.

use vstd::prelude::*;
use vstd::string::*;

use crate::text;
use crate::text::same_text;
use crate::weburl;
use crate::weburl::{Url, UrlView};

verus! {

/// The values of all arguments and flags.
#[derive(Debug, Clone)]
pub struct Cli {
    /// URL of the remote MCP server. May be empty only where `update` is set
    /// and the proxy is not to run.
    pub server_url: String,
    /// Extra HTTP headers for every request to the remote server, each as
    /// `Name: value`.
    pub headers: Vec<String>,
    /// OAuth resource identifier: the canonical URL of the MCP server, used
    /// as the base of OAuth discovery in place of the server URL.
    pub resource: Option<Url>,
    /// OAuth client name for dynamic client registration.
    pub client_name: String,
    /// Pre-registered OAuth client: its ID, or an `https://` URL of a
    /// document that holds it.
    pub client_id: Option<String>,
    /// OAuth scopes to request in place of the discovered ones.
    pub scope: Option<String>,
    /// Bind address of the local OAuth callback server (loopback only).
    pub callback_host: String,
    /// Port of the local OAuth callback server; the system picks one where
    /// it is absent.
    pub callback_port: Option<u16>,
    /// How long, in seconds, the user has to authorize the proxy.
    pub auth_timeout_secs: u64,
    /// Forget cached tokens before connecting.
    pub reset_auth: bool,
    /// Allow `http://` URLs for hosts other than this one.
    pub allow_http: bool,
    /// Skip OAuth discovery and authentication.
    pub no_auth: bool,
    /// Seconds between two keepalive pings; none are sent where it is zero.
    pub ping_interval_secs: u64,
    /// Seconds after which a ping counts as failed.
    pub ping_timeout_secs: u64,
    /// Glob patterns of the tools to forward.
    pub allow_tools: Vec<String>,
    /// Glob patterns of the tools to drop.
    pub deny_tools: Vec<String>,
    /// Check for a newer release and install it.
    pub update: bool,
    /// Make the self-update interactive and visible.
    pub verbose: bool,
}

impl Default for Cli {
    /// The values of a command line without arguments.
    fn default() -> (r: Cli)
        ensures
            r.server_url@ == ""@,
            r.headers@ == Seq::<String>::empty(),
            r.resource is None,
            r.client_name@ == "hyper-mcp-remote"@,
            r.client_id is None,
            r.scope is None,
            r.callback_host@ == "127.0.0.1"@,
            r.callback_port is None,
            r.auth_timeout_secs == 300,
            !r.reset_auth,
            !r.allow_http,
            !r.no_auth,
            r.ping_interval_secs == 60,
            r.ping_timeout_secs == 10,
            r.allow_tools@ == Seq::<String>::empty(),
            r.deny_tools@ == Seq::<String>::empty(),
            !r.update,
            !r.verbose,
    {
        Cli {
            server_url: "".to_string(),
            headers: Vec::new(),
            resource: None,
            client_name: "hyper-mcp-remote".to_string(),
            client_id: None,
            scope: None,
            callback_host: "127.0.0.1".to_string(),
            callback_port: None,
            auth_timeout_secs: 300,
            reset_auth: false,
            allow_http: false,
            no_auth: false,
            ping_interval_secs: 60,
            ping_timeout_secs: 10,
            allow_tools: Vec::new(),
            deny_tools: Vec::new(),
            update: false,
            verbose: false,
        }
    }
}

// ---------------------------------------------------------------------------
// Errors
// ---------------------------------------------------------------------------

/// Why a command line was refused.
#[derive(Debug, Clone, PartialEq, Eq)]
pub enum CliError {
    /// No server URL was given.
    MissingServerUrl,
    /// The server URL is not a URL.
    InvalidServerUrl { cause: String },
    /// A URL would send credentials in the clear.
    Cleartext { what: String, url: String },
    /// A URL has a scheme other than `http` and `https`.
    UnsupportedScheme { what: String },
    /// The resource has a fragment.
    ResourceFragment { url: String },
    /// Pings are on and would time out at once.
    ZeroPingTimeout,
}

/// The view of a [`CliError`].
pub enum CliErrorView {
    MissingServerUrl,
    InvalidServerUrl { cause: Seq<char> },
    Cleartext { what: Seq<char>, url: Seq<char> },
    UnsupportedScheme { what: Seq<char> },
    ResourceFragment { url: Seq<char> },
    ZeroPingTimeout,
}

impl View for CliError {
    type V = CliErrorView;

    open spec fn view(&self) -> CliErrorView {
        match self {
            CliError::MissingServerUrl => CliErrorView::MissingServerUrl,
            CliError::InvalidServerUrl { cause } => CliErrorView::InvalidServerUrl { cause: cause@ },
            CliError::Cleartext { what, url } => {
                CliErrorView::Cleartext { what: what@, url: url@ }
            },
            CliError::UnsupportedScheme { what } => CliErrorView::UnsupportedScheme { what: what@ },
            CliError::ResourceFragment { url } => CliErrorView::ResourceFragment { url: url@ },
            CliError::ZeroPingTimeout => CliErrorView::ZeroPingTimeout,
        }
    }
}

impl CliErrorView {
    /// What the user is told.
    pub open spec fn message(self) -> Seq<char> {
        match self {
            CliErrorView::MissingServerUrl =>
                "missing <SERVER_URL>: a remote MCP server URL is required (it may be omitted only when running --update on its own)"@,
            CliErrorView::InvalidServerUrl { cause } => "invalid --server-url: "@ + cause,
            CliErrorView::Cleartext { what, url } => "refusing to use http:// for non-loopback "@
                + what + " '"@ + url + "'; pass --allow-http to override"@,
            CliErrorView::UnsupportedScheme { what } => what + " must use http or https scheme"@,
            CliErrorView::ResourceFragment { url } =>
                "--resource must not include a fragment (RFC 8707): '"@ + url + "'"@,
            CliErrorView::ZeroPingTimeout =>
                "--ping-timeout-secs must be > 0 when keepalive pings are enabled"@,
        }
    }
}

impl CliError {
    /// What the user is told.
    pub fn message(&self) -> (r: String)
        ensures
            r@ == self@.message(),
    {
        let mut out: String = String::new();
        match self {
            CliError::MissingServerUrl => {
                out.append(
                    "missing <SERVER_URL>: a remote MCP server URL is required (it may be omitted only when running --update on its own)",
                );
            },
            CliError::InvalidServerUrl { cause } => {
                out.append("invalid --server-url: ");
                out.append(cause.as_str());
            },
            CliError::Cleartext { what, url } => {
                out.append("refusing to use http:// for non-loopback ");
                out.append(what.as_str());
                out.append(" '");
                out.append(url.as_str());
                out.append("'; pass --allow-http to override");
            },
            CliError::UnsupportedScheme { what } => {
                out.append(what.as_str());
                out.append(" must use http or https scheme");
            },
            CliError::ResourceFragment { url } => {
                out.append("--resource must not include a fragment (RFC 8707): '");
                out.append(url.as_str());
                out.append("'");
            },
            CliError::ZeroPingTimeout => {
                out.append("--ping-timeout-secs must be > 0 when keepalive pings are enabled");
            },
        }
        assert(out@ =~= self@.message());
        out
    }
}

// ---------------------------------------------------------------------------
// Validation
// ---------------------------------------------------------------------------

/// Does this name or address, as it stands in a URL, stand for this very
/// machine? An IPv6 address is written in brackets there.
pub open spec fn is_loopback(host: Option<Seq<char>>) -> bool {
    host == Some("localhost"@) || host == Some("127.0.0.1"@) || host == Some("[::1]"@)
}

/// May credentials travel to `url`? `https` always, `http` to this machine or
/// where it was allowed.
pub open spec fn may_carry_credentials(url: UrlView, allow_http: bool) -> bool {
    ||| url.scheme == "https"@
    ||| url.scheme == "http"@ && (is_loopback(url.host) || allow_http)
}

/// The transport policy for a URL that the proxy sends credentials to.
pub open spec fn scheme_checked(url: UrlView, what: Seq<char>, allow_http: bool) -> Result<
    (),
    CliErrorView,
> {
    if may_carry_credentials(url, allow_http) {
        Ok(())
    } else if url.scheme == "http"@ {
        Err(CliErrorView::Cleartext { what, url: url.serialization })
    } else {
        Err(CliErrorView::UnsupportedScheme { what })
    }
}

/// The rules for the OAuth resource: no fragment, and the transport policy.
pub open spec fn resource_checked(resource: Option<Url>, allow_http: bool) -> Result<
    (),
    CliErrorView,
> {
    match resource {
        None => Ok(()),
        Some(url) => if url@.fragment is Some {
            Err(CliErrorView::ResourceFragment { url: url@.serialization })
        } else {
            scheme_checked(url@, "--resource URL"@, allow_http)
        },
    }
}

/// What becomes of a command line whose server URL was parsed to `server`:
/// the first rule that is broken, if any.
pub open spec fn validated(cli: Cli, server: Result<UrlView, Seq<char>>) -> Result<
    (),
    CliErrorView,
> {
    if cli.server_url@.len() == 0 {
        Err(CliErrorView::MissingServerUrl)
    } else {
        match server {
            Err(cause) => Err(CliErrorView::InvalidServerUrl { cause }),
            Ok(url) => match scheme_checked(url, "server URL"@, cli.allow_http) {
                Err(e) => Err(e),
                Ok(_) => match resource_checked(cli.resource, cli.allow_http) {
                    Err(e) => Err(e),
                    Ok(_) => if cli.ping_interval_secs != 0 && cli.ping_timeout_secs == 0 {
                        Err(CliErrorView::ZeroPingTimeout)
                    } else {
                        Ok(())
                    },
                },
            },
        }
    }
}

fn host_is_loopback(host: &Option<String>) -> (r: bool)
    ensures
        r == is_loopback(text::opt_text(*host)),
{
    match host {
        Some(h) => same_text(h.as_str(), "localhost") || same_text(h.as_str(), "127.0.0.1")
            || same_text(h.as_str(), "[::1]"),
        None => false,
    }
}

impl Cli {
    /// Check the values against the rules.
    pub fn validate(&self) -> (r: Result<(), CliError>)
        ensures
            match r {
                Ok(_) => validated(*self, weburl::parsed(self.server_url@)) is Ok,
                Err(e) => validated(*self, weburl::parsed(self.server_url@)) == Err::<
                    (),
                    CliErrorView,
                >(e@),
            },
    {
        if self.server_url.as_str().unicode_len() == 0 {
            return Err(CliError::MissingServerUrl);
        }
        self.validate_parsed(&Url::parse(self.server_url.as_str()))
    }

    /// Check the values against the rules, with what the server URL was
    /// parsed to.
    pub fn validate_parsed(&self, server: &Result<Url, String>) -> (r: Result<(), CliError>)
        ensures
            ({
                let parsed = match *server {
                    Ok(url) => Ok::<UrlView, Seq<char>>(url@),
                    Err(e) => Err::<UrlView, Seq<char>>(e@),
                };
                match r {
                    Ok(_) => validated(*self, parsed) is Ok,
                    Err(e) => validated(*self, parsed) == Err::<(), CliErrorView>(e@),
                }
            }),
    {
        if self.server_url.as_str().unicode_len() == 0 {
            return Err(CliError::MissingServerUrl);
        }
        match server {
            Err(e) => {
                return Err(CliError::InvalidServerUrl { cause: e.clone() });
            },
            Ok(url) => {
                if let Err(e) = self.check_http_scheme(url, "server URL") {
                    return Err(e);
                }
            },
        }
        if let Some(resource) = &self.resource {
            if resource.fragment.is_some() {
                return Err(CliError::ResourceFragment { url: resource.serialization.clone() });
            }
            if let Err(e) = self.check_http_scheme(resource, "--resource URL") {
                return Err(e);
            }
        }
        if self.ping_interval_secs != 0 && self.ping_timeout_secs == 0 {
            return Err(CliError::ZeroPingTimeout);
        }
        Ok(())
    }

    /// Shared transport policy for any URL the proxy sends credentials to.
    pub fn check_http_scheme(&self, url: &Url, what: &str) -> (r: Result<(), CliError>)
        ensures
            match r {
                Ok(_) => scheme_checked(url@, what@, self.allow_http) is Ok,
                Err(e) => scheme_checked(url@, what@, self.allow_http) == Err::<(), CliErrorView>(
                    e@,
                ),
            },
    {
        proof {
            reveal_strlit("http");
            reveal_strlit("https");
            assert("http"@.len() != "https"@.len());
        }
        let is_http: bool = same_text(url.scheme.as_str(), "http");
        if is_http && !host_is_loopback(&url.host) && !self.allow_http {
            return Err(
                CliError::Cleartext {
                    what: what.to_string(),
                    url: url.serialization.clone(),
                },
            );
        }
        if !is_http && !same_text(url.scheme.as_str(), "https") {
            return Err(CliError::UnsupportedScheme { what: what.to_string() });
        }
        Ok(())
    }

    /// What to do on this launch.
    pub fn startup(&self) -> (r: Startup)
        ensures
            r == startup_of(*self),
    {
        if !self.update {
            Startup::Proxy
        } else if self.server_url.as_str().unicode_len() == 0 {
            Startup::Update
        } else {
            Startup::UpdateThenProxy
        }
    }
}

// ---------------------------------------------------------------------------
// Startup
// ---------------------------------------------------------------------------

/// What a launch does.
#[derive(Debug, Clone, Copy, PartialEq, Eq, Structural)]
pub enum Startup {
    /// Run the proxy.
    Proxy,
    /// Check for a newer release, then run the proxy.
    UpdateThenProxy,
    /// Check for a newer release and exit.
    Update,
}

/// What a launch does: an update where it is asked for, and the proxy unless
/// an update was asked for without a server URL.
pub open spec fn startup_of(cli: Cli) -> Startup {
    if !cli.update {
        Startup::Proxy
    } else if cli.server_url@.len() == 0 {
        Startup::Update
    } else {
        Startup::UpdateThenProxy
    }
}

// ---------------------------------------------------------------------------
// Laws
// ---------------------------------------------------------------------------

/// After validation, every URL that the proxy sends credentials to may carry
/// them, and the resource has no fragment.
pub proof fn law_validated_urls_may_carry_credentials(cli: Cli, server: Result<UrlView, Seq<char>>)
    requires
        validated(cli, server) is Ok,
    ensures
        server matches Ok(url) && may_carry_credentials(url, cli.allow_http),
        cli.resource matches Some(url) ==> may_carry_credentials(url@, cli.allow_http)
            && url@.fragment is None,
{
}

/// Without `--allow-http`, validated URLs are `https`, or `http` to this very
/// machine.
pub proof fn law_no_cleartext_without_consent(cli: Cli, server: Result<UrlView, Seq<char>>)
    requires
        validated(cli, server) is Ok,
        !cli.allow_http,
    ensures
        server matches Ok(url) && (url.scheme == "https"@ || url.scheme == "http"@ && is_loopback(
            url.host,
        )),
        cli.resource matches Some(url) ==> (url@.scheme == "https"@ || url@.scheme == "http"@
            && is_loopback(url@.host)),
{
}

/// `--allow-http` only ever accepts more.
pub proof fn law_allow_http_only_accepts_more(
    cli: Cli,
    allowing: Cli,
    server: Result<UrlView, Seq<char>>,
)
    requires
        validated(cli, server) is Ok,
        allowing == (Cli { allow_http: true, ..cli }),
    ensures
        validated(allowing, server) is Ok,
{
}

/// After validation, pings that are on have a timeout above zero.
pub proof fn law_validated_pings_can_succeed(cli: Cli, server: Result<UrlView, Seq<char>>)
    requires
        validated(cli, server) is Ok,
    ensures
        cli.ping_interval_secs == 0 || cli.ping_timeout_secs > 0,
{
}

/// A launch that runs the proxy is refused without a server URL.
pub proof fn law_the_proxy_needs_a_server_url(cli: Cli, server: Result<UrlView, Seq<char>>)
    requires
        cli.server_url@.len() == 0,
    ensures
        validated(cli, server) == Err::<(), CliErrorView>(CliErrorView::MissingServerUrl),
        startup_of(cli) !is UpdateThenProxy,
        startup_of(cli) is Update <==> cli.update,
{
}

/// Is this a URL that credentials may travel to: encrypted, or to one of the
/// three names of this machine, or where cleartext was consented to?
pub open spec fn is_safe(url: UrlView, consent: bool) -> bool {
    let host = url.host;
    let here = host is Some && (host->0 == "localhost"@ || host->0 == "127.0.0.1"@ || host->0
        == "[::1]"@);
    url.scheme == "https"@ || (url.scheme == "http"@ && (consent || here))
}

/// A command line is accepted if and only if it names a server at a safe URL,
/// its resource, if any, is at a safe URL without a fragment, and pings that
/// are on can be answered in time.
pub proof fn law_what_is_accepted(cli: Cli, server: Result<UrlView, Seq<char>>)
    ensures
        validated(cli, server) is Ok <==> {
            &&& cli.server_url@.len() > 0
            &&& server is Ok && is_safe(server->Ok_0, cli.allow_http)
            &&& cli.resource is Some ==> is_safe(cli.resource->0@, cli.allow_http)
                && cli.resource->0@.fragment is None
            &&& cli.ping_interval_secs > 0 ==> cli.ping_timeout_secs > 0
        },
{
    reveal_strlit("http");
    reveal_strlit("https");
}

/// The transport policy accepts safe URLs, and tells cleartext from schemes
/// that are none of the two.
pub proof fn law_the_transport_policy(url: UrlView, what: Seq<char>, consent: bool)
    ensures
        scheme_checked(url, what, consent) is Ok <==> is_safe(url, consent),
        !is_safe(url, consent) && url.scheme == "http"@ ==> (scheme_checked(url, what, consent)
            matches Err(CliErrorView::Cleartext { what: w, url: u }) && w == what && u
            == url.serialization),
        url.scheme != "http"@ && url.scheme != "https"@ ==> (scheme_checked(url, what, consent)
            matches Err(CliErrorView::UnsupportedScheme { what: w }) && w == what),
{
    reveal_strlit("http");
    reveal_strlit("https");
}

/// What is refused, the first reason first: the server URL goes before the
/// resource, and that before the pings.
pub proof fn law_why_a_command_line_is_refused(cli: Cli, server: Result<UrlView, Seq<char>>)
    ensures
        ({
            let end = validated(cli, server);
            let named = cli.server_url@.len() > 0;
            let served = named && server is Ok && is_safe(server->Ok_0, cli.allow_http);
            let whole = cli.resource is None || cli.resource->0@.fragment is None;
            let there = cli.resource is None || is_safe(cli.resource->0@, cli.allow_http);
            &&& !named ==> end == Err::<(), _>(CliErrorView::MissingServerUrl)
            &&& named && server is Err ==> (end matches Err(CliErrorView::InvalidServerUrl {
                cause,
            }) && cause == server->Err_0)
            &&& named && server is Ok && !served ==> end == scheme_checked(
                server->Ok_0,
                "server URL"@,
                cli.allow_http,
            )
            &&& served && !whole ==> (end matches Err(CliErrorView::ResourceFragment { url })
                && url == cli.resource->0@.serialization)
            &&& served && whole && !there ==> end == scheme_checked(
                cli.resource->0@,
                "--resource URL"@,
                cli.allow_http,
            )
            &&& served && whole && there && cli.ping_interval_secs > 0 && cli.ping_timeout_secs
                == 0 ==> end == Err::<(), _>(CliErrorView::ZeroPingTimeout)
        }),
{
    reveal_strlit("http");
    reveal_strlit("https");
}

/// A launch looks for an update if and only if it was asked to, and runs the
/// proxy unless that was all that it was asked to.
pub proof fn law_what_a_launch_does(cli: Cli)
    ensures
        startup_of(cli) is Proxy <==> !cli.update,
        startup_of(cli) is UpdateThenProxy <==> cli.update && cli.server_url@.len() > 0,
        startup_of(cli) is Update <==> cli.update && cli.server_url@.len() == 0,
{
}

/// What the user is told names the URL and the flag to set.
pub proof fn law_refusals_say_what_is_wrong(what: Seq<char>, url: Seq<char>, error: CliError)
    ensures
        ({
            let invalid = CliErrorView::InvalidServerUrl { cause: what };
            let clear = CliErrorView::Cleartext { what, url };
            let scheme = CliErrorView::UnsupportedScheme { what };
            let fragment = CliErrorView::ResourceFragment { url };
            &&& CliErrorView::MissingServerUrl.message()
                == "missing <SERVER_URL>: a remote MCP server URL is required (it may be omitted only when running --update on its own)"@
            &&& invalid.message() == "invalid --server-url: "@ + what
            &&& clear.message() == "refusing to use http:// for non-loopback "@ + what + " '"@ + url
                + "'; pass --allow-http to override"@
            &&& scheme.message() == what + " must use http or https scheme"@
            &&& fragment.message() == "--resource must not include a fragment (RFC 8707): '"@ + url
                + "'"@
            &&& CliErrorView::ZeroPingTimeout.message()
                == "--ping-timeout-secs must be > 0 when keepalive pings are enabled"@
        }),
        match error {
            CliError::MissingServerUrl => error@ is MissingServerUrl,
            CliError::InvalidServerUrl { cause } => error@ is InvalidServerUrl && error@->cause
                == cause@,
            CliError::Cleartext { what: w, url: u } => error@ is Cleartext
                && error@->Cleartext_what == w@ && error@->Cleartext_url == u@,
            CliError::UnsupportedScheme { what: w } => error@ is UnsupportedScheme
                && error@->UnsupportedScheme_what == w@,
            CliError::ResourceFragment { url: u } => error@ is ResourceFragment
                && error@->ResourceFragment_url == u@,
            CliError::ZeroPingTimeout => error@ is ZeroPingTimeout,
        },
{
}

} // verus!
