//! From the command line to what a launch needs.

use vstd::prelude::*;
use vstd::string::*;

use crate::cli;
use crate::cli::{Cli, CliError, CliErrorView};
use crate::filter;
use crate::filter::{FilterError, FilterErrorView, FilterView, ToolFilter};
use crate::headers;
use crate::headers::{Environment, HeaderError, HeaderErrorView, Headers};
use crate::proxy::KeepaliveConfig;
use crate::session;
use crate::session::{CredentialKey, SessionHash};
use crate::text;
use crate::weburl;
use crate::weburl::Url;

verus! {

/// What is known before the server is contacted.
#[derive(Debug)]
pub struct Launch {
    /// Headers for every request.
    pub headers: Headers,
    /// Identifies the session in the log.
    pub session: SessionHash,
    /// Names the credentials in the store.
    pub cred_key: CredentialKey,
}

/// Why a launch was refused.
#[derive(Debug)]
pub enum LaunchError {
    /// The command line breaks a rule.
    Cli(CliError),
    /// A header is malformed.
    Header(HeaderError),
    /// A tool pattern is malformed.
    Filter(FilterError),
}

/// The view of a [`LaunchError`].
pub enum LaunchErrorView {
    Cli(CliErrorView),
    Header(HeaderErrorView),
    Filter(FilterErrorView),
}

impl View for LaunchError {
    type V = LaunchErrorView;

    open spec fn view(&self) -> LaunchErrorView {
        match self {
            LaunchError::Cli(e) => LaunchErrorView::Cli(e@),
            LaunchError::Header(e) => LaunchErrorView::Header(e@),
            LaunchError::Filter(e) => LaunchErrorView::Filter(e@),
        }
    }
}

impl LaunchErrorView {
    /// What the user is told.
    pub open spec fn message(self) -> Seq<char> {
        match self {
            LaunchErrorView::Cli(e) => "invalid CLI arguments: "@ + e.message(),
            LaunchErrorView::Header(e) => "failed to parse --header arguments: "@
                + e.full_message(),
            LaunchErrorView::Filter(e) => "failed to compile tool filter patterns: "@ + e.message()
                + ": "@ + e.cause(),
        }
    }
}

impl LaunchError {
    /// What the user is told.
    pub fn message(&self) -> (r: String)
        ensures
            r@ == self@.message(),
    {
        let mut out: String = String::new();
        match self {
            LaunchError::Cli(e) => {
                out.append("invalid CLI arguments: ");
                out.append(e.message().as_str());
            },
            LaunchError::Header(e) => {
                out.append("failed to parse --header arguments: ");
                out.append(e.full_message().as_str());
            },
            LaunchError::Filter(e) => {
                out.append("failed to compile tool filter patterns: ");
                out.append(e.full_message().as_str());
            },
        }
        assert(out@ =~= self@.message());
        out
    }
}

/// The text of the resource, if one was given.
pub open spec fn resource_text(resource: Option<Url>) -> Option<Seq<char>> {
    match resource {
        Some(url) => Some(url.serialization@),
        None => None,
    }
}

/// Checks the command line, and derives from it what a launch needs before
/// the server is contacted.
pub fn prepare(cli: &Cli, env: &Environment) -> (r: Result<Launch, LaunchError>)
    ensures
        ({
            let rules = cli::validated(*cli, weburl::parsed(cli.server_url@));
            let parsed = headers::parsed(text::texts(cli.headers@), env@);
            match r {
                Err(LaunchError::Cli(e)) => rules == Err::<(), CliErrorView>(e@),
                Err(LaunchError::Header(e)) => rules is Ok && parsed == Err::<
                    Map<Seq<char>, Seq<u8>>,
                    HeaderErrorView,
                >(e@),
                Err(LaunchError::Filter(_)) => false,
                Ok(launch) => {
                    &&& rules is Ok
                    &&& parsed == Ok::<_, HeaderErrorView>(launch.headers.map())
                    &&& launch.session@ == session::session_hash(
                        cli.server_url@,
                        resource_text(cli.resource),
                        launch.headers.map(),
                    )
                    &&& launch.cred_key@ == session::credential_key(
                        cli.server_url@,
                        resource_text(cli.resource),
                    )
                },
            }
        }),
{
    if let Err(e) = cli.validate() {
        return Err(LaunchError::Cli(e));
    }
    let headers: Headers = match headers::parse(cli.headers.as_slice(), env) {
        Ok(h) => h,
        Err(e) => {
            return Err(LaunchError::Header(e));
        },
    };
    let resource: Option<&str> = match &cli.resource {
        Some(url) => Some(url.as_str()),
        None => None,
    };
    let session: SessionHash = SessionHash::new(cli.server_url.as_str(), resource, &headers);
    let cred_key: CredentialKey = CredentialKey::new(cli.server_url.as_str(), resource);
    Ok(Launch { headers, session, cred_key })
}

/// The settings of the proxy itself: how the session is kept alive, and which
/// tools are forwarded.
pub fn proxy_settings(cli: &Cli) -> (r: Result<(KeepaliveConfig, ToolFilter), LaunchError>)
    ensures
        ({
            let compiled = filter::filter_of(
                text::texts(cli.allow_tools@),
                text::texts(cli.deny_tools@),
            );
            match r {
                Ok((keepalive, tool_filter)) => {
                    &&& compiled == Ok::<FilterView, FilterErrorView>(tool_filter@)
                    &&& keepalive.interval is None <==> cli.ping_interval_secs == 0
                    &&& keepalive.interval matches Some(d) ==> crate::proxy::nanos(d)
                        == crate::proxy::seconds(cli.ping_interval_secs as nat)
                    &&& crate::proxy::nanos(keepalive.timeout) == crate::proxy::seconds(
                        if cli.ping_timeout_secs == 0 {
                            1
                        } else {
                            cli.ping_timeout_secs as nat
                        },
                    )
                },
                Err(LaunchError::Filter(e)) => compiled == Err::<FilterView, FilterErrorView>(e@),
                Err(_) => false,
            }
        }),
{
    let keepalive: KeepaliveConfig = KeepaliveConfig::from_secs(
        cli.ping_interval_secs,
        cli.ping_timeout_secs,
    );
    match ToolFilter::from_cli(cli.allow_tools.as_slice(), cli.deny_tools.as_slice()) {
        Ok(tool_filter) => Ok((keepalive, tool_filter)),
        Err(e) => Err(LaunchError::Filter(e)),
    }
}

// ---------------------------------------------------------------------------
// Laws
// ---------------------------------------------------------------------------

/// The resource goes into the identity of a session as the text of its URL.
pub proof fn law_the_resource_is_its_url(resource: Option<Url>)
    ensures
        resource_text(resource) is Some <==> resource is Some,
        resource is Some ==> resource_text(resource)->0 == resource->0.serialization@,
{
}

/// What the user is told says which flags are meant, and then what is wrong.
pub proof fn law_refused_launches_say_why(
    c: CliErrorView,
    h: HeaderErrorView,
    f: FilterErrorView,
    error: LaunchError,
)
    ensures
        LaunchErrorView::Cli(c).message() == "invalid CLI arguments: "@ + c.message(),
        LaunchErrorView::Header(h).message() == "failed to parse --header arguments: "@
            + h.full_message(),
        LaunchErrorView::Filter(f).message() == "failed to compile tool filter patterns: "@
            + f.message() + ": "@ + f.cause(),
        match error {
            LaunchError::Cli(e) => error@ is Cli && error@->Cli_0 == e@,
            LaunchError::Header(e) => error@ is Header && error@->Header_0 == e@,
            LaunchError::Filter(e) => error@ is Filter && error@->Filter_0 == e@,
        },
{
}

} // verus!
