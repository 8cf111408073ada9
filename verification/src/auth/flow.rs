//! The course of authentication, from the command line to usable credentials.
//!
//! The flow is a state machine. At each step [`Flow::action`] says what is to
//! be done: a request to the server, a look into the credential store, a page
//! in the browser. The caller does it, and hands what came of it back to
//! [`Flow::advance`].
//!
//! Cached credentials are used without any interaction. A cached access token
//! that has expired is refreshed first. Where nothing usable is cached, or
//! the refresh fails, the user is asked to authorize the proxy in a browser:
//! many MCP hosts never restart a failed server process, so giving up would
//! leave the user with a dead connection.

use vstd::prelude::*;
use vstd::string::*;

use crate::auth::cache;
use crate::auth::cache::{cached_access_token_is_stale, CachedCredentials};
use crate::auth::callback::{AuthCode, AuthCodeView};
use crate::auth::discovery::{
    AuthRequirement, AuthRequirementView, OAuthDiscovery, OAuthDiscoveryView,
};
use crate::cli::Cli;
use crate::text;
use crate::text::{copied, fields_of, starts_with, CharClass};

verus! {

// ---------------------------------------------------------------------------
// Scopes and clients
// ---------------------------------------------------------------------------

/// The scopes to ask for: those of the command line, between commas and
/// white space, else the discovered ones.
pub open spec fn scopes_of(scope: Option<Seq<char>>, discovered: Seq<Seq<char>>) -> Seq<Seq<char>> {
    match scope {
        Some(s) => text::fields(s, CharClass::WhiteSpaceOr(',')),
        None => discovered,
    }
}

/// The final scope list; `--scope` goes before the discovered scopes.
pub fn effective_scopes(cli: &Cli, discovery: &OAuthDiscovery) -> (out: Vec<String>)
    ensures
        text::texts(out@) == scopes_of(text::opt_text(cli.scope), discovery@.scopes),
{
    match &cli.scope {
        Some(s) => fields_of(s.as_str(), CharClass::WhiteSpaceOr(',')),
        None => copied(&discovery.scopes),
    }
}

/// Where the OAuth client comes from.
#[derive(Debug, Clone, PartialEq, Eq)]
pub enum ClientSource {
    /// It is registered with the authorization server, under this name.
    Register { name: String },
    /// It was registered before, with this ID.
    Known { id: String },
    /// It was registered before; the document at this URL holds its ID.
    Document { url: String },
}

/// The view of a [`ClientSource`].
pub enum ClientSourceView {
    Register { name: Seq<char> },
    Known { id: Seq<char> },
    Document { url: Seq<char> },
}

impl View for ClientSource {
    type V = ClientSourceView;

    open spec fn view(&self) -> ClientSourceView {
        match self {
            ClientSource::Register { name } => ClientSourceView::Register { name: name@ },
            ClientSource::Known { id } => ClientSourceView::Known { id: id@ },
            ClientSource::Document { url } => ClientSourceView::Document { url: url@ },
        }
    }
}

/// Where the OAuth client comes from: `--client-id` is an ID unless it is an
/// `https://` URL; without it the client is registered.
pub open spec fn client_of(client_id: Option<Seq<char>>, name: Seq<char>) -> ClientSourceView {
    match client_id {
        None => ClientSourceView::Register { name },
        Some(id) => if "https://"@.is_prefix_of(id) {
            ClientSourceView::Document { url: id }
        } else {
            ClientSourceView::Known { id }
        },
    }
}

/// Where the OAuth client comes from.
pub fn client_source(cli: &Cli) -> (r: ClientSource)
    ensures
        r@ == client_of(text::opt_text(cli.client_id), cli.client_name@),
{
    match &cli.client_id {
        None => ClientSource::Register { name: cli.client_name.clone() },
        Some(id) => if starts_with(id.as_str(), "https://") {
            ClientSource::Document { url: id.clone() }
        } else {
            ClientSource::Known { id: id.clone() }
        },
    }
}

// ---------------------------------------------------------------------------
// Steps and events
// ---------------------------------------------------------------------------

/// Where the flow stands.
#[derive(Debug, Clone, Copy, PartialEq, Eq, Structural)]
pub enum Step {
    /// Cached credentials are to be forgotten.
    ClearCache,
    /// The requirements of the server are to be found out.
    Discover,
    /// The credential store is to be read.
    LoadCache,
    /// An OAuth session is to be opened for the cached credentials.
    OpenCached,
    /// The session is to be given the cached credentials.
    ApplyCached,
    /// The cached credentials are to be stored as they were: giving them to
    /// the session has stamped them with the present time.
    RestoreCached,
    /// The cached access token is to be refreshed.
    RefreshCached,
    /// The cached credentials are dead and to be forgotten.
    DiscardCached,
    /// An OAuth session is to be opened for a new authorization.
    OpenFresh,
    /// The callback server is to be started.
    BindCallback,
    /// The document with the client ID is to be fetched.
    ResolveClient,
    /// The authorization is to be started.
    Authorize,
    /// The URL for the user is to be built.
    BuildUrl,
    /// The URL is to be shown to the user.
    OpenBrowser,
    /// The callback is to be waited for.
    AwaitCode,
    /// The authorization code is to be exchanged for tokens.
    ExchangeCode,
    /// The server is used without OAuth.
    Anonymous,
    /// The session holds usable credentials.
    Authorized,
    /// The flow has failed.
    Failed,
}

/// What came of an action. `C` is a credential record as it is stored.
#[derive(Debug)]
pub enum Event<C> {
    /// It was done.
    Done,
    /// It failed, for this reason.
    Failed { cause: String },
    /// The requirements of the server.
    Requirement(AuthRequirement),
    /// What the credential store holds: what the flow looks at, and the record
    /// itself.
    Cached(Option<(CachedCredentials, C)>),
    /// An OAuth session was opened at this time, in seconds since the epoch.
    Opened { now: u64 },
    /// The callback server listens, with this redirect URI.
    Bound { redirect_uri: String },
    /// The client ID that the document holds.
    Client { id: String },
    /// The URL for the user.
    Url { url: String },
    /// The callback brought an authorization code.
    Code(AuthCode),
}

/// The view of an [`Event`].
pub enum EventView<C> {
    Done,
    Failed { cause: Seq<char> },
    Requirement(AuthRequirementView),
    Cached(Option<(CachedCredentials, C)>),
    Opened { now: u64 },
    Bound { redirect_uri: Seq<char> },
    Client { id: Seq<char> },
    Url { url: Seq<char> },
    Code(AuthCodeView),
}

impl<C> View for Event<C> {
    type V = EventView<C>;

    open spec fn view(&self) -> EventView<C> {
        match self {
            Event::Done => EventView::Done,
            Event::Failed { cause } => EventView::Failed { cause: cause@ },
            Event::Requirement(r) => EventView::Requirement(r@),
            Event::Cached(c) => EventView::Cached(*c),
            Event::Opened { now } => EventView::Opened { now: *now },
            Event::Bound { redirect_uri } => EventView::Bound { redirect_uri: redirect_uri@ },
            Event::Client { id } => EventView::Client { id: id@ },
            Event::Url { url } => EventView::Url { url: url@ },
            Event::Code(c) => EventView::Code(c@),
        }
    }
}

impl Step {
    /// Is the flow over?
    pub open spec fn is_final(self) -> bool {
        self is Anonymous || self is Authorized || self is Failed
    }

    /// Can the action of this step end in `event`?
    pub open spec fn answered_by<C>(self, event: EventView<C>) -> bool {
        &&& !self.is_final()
        &&& match event {
            EventView::Failed { .. } => true,
            EventView::Requirement(_) => self is Discover,
            EventView::Cached(_) => self is LoadCache,
            EventView::Opened { .. } => self is OpenCached || self is OpenFresh,
            EventView::Bound { .. } => self is BindCallback,
            EventView::Client { .. } => self is ResolveClient,
            EventView::Url { .. } => self is BuildUrl,
            EventView::Code(_) => self is AwaitCode,
            EventView::Done => match self {
                Step::ClearCache => true,
                Step::ApplyCached => true,
                Step::RestoreCached => true,
                Step::RefreshCached => true,
                Step::DiscardCached => true,
                Step::Authorize => true,
                Step::OpenBrowser => true,
                Step::ExchangeCode => true,
                _ => false,
            },
        }
    }

    /// Does a failure of this step leave the flow alive? Cached credentials
    /// that cannot be stored back, refreshed or forgotten, and a browser that
    /// cannot be opened, are no reason to give up.
    pub open spec fn tolerates_failure(self) -> bool {
        self is RestoreCached || self is RefreshCached || self is DiscardCached
            || self is OpenBrowser
    }

    /// What the user is told when this step fails.
    pub open spec fn context(self) -> Seq<char> {
        match self {
            Step::ClearCache => "failed to clear cached credentials"@,
            Step::Discover => "failed to discover OAuth requirements"@,
            Step::LoadCache => "failed to load cached credentials"@,
            Step::OpenCached => "failed to initialize OAuth state machine"@,
            Step::ApplyCached => "failed to apply cached credentials"@,
            Step::OpenFresh => "failed to initialize OAuth state machine"@,
            Step::BindCallback =>
                "interactive OAuth flow failed: failed to start local OAuth callback server"@,
            Step::ResolveClient =>
                "interactive OAuth flow failed: failed to fetch the client ID metadata document"@,
            Step::Authorize =>
                "interactive OAuth flow failed: OAuth authorization start failed (dynamic registration?)"@,
            Step::BuildUrl =>
                "interactive OAuth flow failed: failed to build authorization URL"@,
            Step::AwaitCode => "interactive OAuth flow failed: OAuth callback wait failed"@,
            Step::ExchangeCode => "interactive OAuth flow failed: OAuth code exchange failed"@,
            _ => ""@,
        }
    }

    /// Can the action of this step end in `event`?
    pub fn accepts<C>(self, event: &Event<C>) -> (r: bool)
        ensures
            r == self.answered_by(event@),
    {
        match self {
            Step::Anonymous | Step::Authorized | Step::Failed => {
                return false;
            },
            _ => {},
        }
        match event {
            Event::Failed { .. } => true,
            Event::Requirement(_) => matches!(self, Step::Discover),
            Event::Cached(_) => matches!(self, Step::LoadCache),
            Event::Opened { .. } => matches!(self, Step::OpenCached | Step::OpenFresh),
            Event::Bound { .. } => matches!(self, Step::BindCallback),
            Event::Client { .. } => matches!(self, Step::ResolveClient),
            Event::Url { .. } => matches!(self, Step::BuildUrl),
            Event::Code(_) => matches!(self, Step::AwaitCode),
            Event::Done => match self {
                Step::ClearCache => true,
                Step::ApplyCached => true,
                Step::RestoreCached => true,
                Step::RefreshCached => true,
                Step::DiscardCached => true,
                Step::Authorize => true,
                Step::OpenBrowser => true,
                Step::ExchangeCode => true,
                _ => false,
            },
        }
    }

    /// What the user is told when this step fails.
    pub fn failure_context(self) -> (r: &'static str)
        ensures
            r@ == self.context(),
    {
        match self {
            Step::ClearCache => "failed to clear cached credentials",
            Step::Discover => "failed to discover OAuth requirements",
            Step::LoadCache => "failed to load cached credentials",
            Step::OpenCached => "failed to initialize OAuth state machine",
            Step::ApplyCached => "failed to apply cached credentials",
            Step::OpenFresh => "failed to initialize OAuth state machine",
            Step::BindCallback => {
                "interactive OAuth flow failed: failed to start local OAuth callback server"
            },
            Step::ResolveClient => {
                "interactive OAuth flow failed: failed to fetch the client ID metadata document"
            },
            Step::Authorize => {
                "interactive OAuth flow failed: OAuth authorization start failed (dynamic registration?)"
            },
            Step::BuildUrl => "interactive OAuth flow failed: failed to build authorization URL",
            Step::AwaitCode => "interactive OAuth flow failed: OAuth callback wait failed",
            Step::ExchangeCode => "interactive OAuth flow failed: OAuth code exchange failed",
            _ => "",
        }
    }
}

// ---------------------------------------------------------------------------
// The machine
// ---------------------------------------------------------------------------

/// The view of a [`Flow`].
pub struct FlowView<C> {
    /// The command line.
    pub cli: Cli,
    /// Where the flow stands.
    pub step: Step,
    /// What the server requires.
    pub discovery: Option<OAuthDiscoveryView>,
    /// The cached credentials.
    pub cached: Option<(CachedCredentials, C)>,
    /// Was the cached access token stale?
    pub stale: bool,
    /// Where the authorization server redirects to.
    pub redirect_uri: Option<Seq<char>>,
    /// The client ID that the document holds.
    pub client_id: Option<Seq<char>>,
    /// The URL for the user.
    pub url: Option<Seq<char>>,
    /// The authorization code.
    pub code: Option<AuthCodeView>,
    /// Why the flow has failed.
    pub error: Option<Seq<char>>,
}

impl<C> FlowView<C> {
    /// The source of the OAuth client.
    pub open spec fn client(self) -> ClientSourceView {
        client_of(text::opt_text(self.cli.client_id), self.cli.client_name@)
    }

    /// The flow at another step.
    pub open spec fn at(self, step: Step) -> FlowView<C> {
        FlowView { step, ..self }
    }

    /// The flow after its step has failed.
    pub open spec fn failed(self, cause: Seq<char>) -> FlowView<C> {
        match self.step {
            Step::RestoreCached => self.restored(),
            Step::RefreshCached => self.at(Step::DiscardCached),
            Step::DiscardCached => self.at(Step::OpenFresh),
            Step::OpenBrowser => self.at(Step::AwaitCode),
            _ => FlowView {
                step: Step::Failed,
                error: Some(self.step.context() + ": "@ + cause),
                ..self
            },
        }
    }

    /// The flow once the cache is as it was: a stale token is refreshed.
    pub open spec fn restored(self) -> FlowView<C> {
        if self.stale {
            self.at(Step::RefreshCached)
        } else {
            self.at(Step::Authorized)
        }
    }

    /// The flow after its step was done.
    pub open spec fn done(self) -> FlowView<C> {
        match self.step {
            Step::ClearCache => if self.cli.no_auth {
                self.at(Step::Anonymous)
            } else {
                self.at(Step::Discover)
            },
            Step::ApplyCached => self.at(Step::RestoreCached),
            Step::RestoreCached => self.restored(),
            Step::RefreshCached => self.at(Step::Authorized),
            Step::DiscardCached => self.at(Step::OpenFresh),
            Step::Authorize => self.at(Step::BuildUrl),
            Step::OpenBrowser => self.at(Step::AwaitCode),
            Step::ExchangeCode => self.at(Step::Authorized),
            _ => self,
        }
    }

    /// The flow after `event`.
    pub open spec fn after(self, event: EventView<C>) -> FlowView<C> {
        match event {
            EventView::Done => self.done(),
            EventView::Failed { cause } => self.failed(cause),
            EventView::Requirement(AuthRequirementView::NotRequired) => self.at(Step::Anonymous),
            EventView::Requirement(AuthRequirementView::Required(d)) => FlowView {
                step: Step::LoadCache,
                discovery: Some(d),
                ..self
            },
            EventView::Cached(cached) => if cached matches Some((c, _)) && c.token_response is Some {
                FlowView { step: Step::OpenCached, cached, ..self }
            } else {
                self.at(Step::OpenFresh)
            },
            EventView::Opened { now } => if self.step is OpenCached {
                FlowView {
                    step: Step::ApplyCached,
                    stale: cache::is_stale((self.cached->0).0, now),
                    ..self
                }
            } else {
                self.at(Step::BindCallback)
            },
            EventView::Bound { redirect_uri } => FlowView {
                step: if self.client() is Document {
                    Step::ResolveClient
                } else {
                    Step::Authorize
                },
                redirect_uri: Some(redirect_uri),
                ..self
            },
            EventView::Client { id } => FlowView {
                step: Step::Authorize,
                client_id: Some(id),
                ..self
            },
            EventView::Url { url } => FlowView { step: Step::OpenBrowser, url: Some(url), ..self },
            EventView::Code(code) => FlowView {
                step: Step::ExchangeCode,
                code: Some(code),
                ..self
            },
        }
    }

    /// The flow after a run of events, as far as each can come.
    pub open spec fn run(self, events: Seq<EventView<C>>) -> FlowView<C>
        decreases events.len(),
    {
        if events.len() == 0 || !self.step.answered_by(events[0]) {
            self
        } else {
            self.after(events[0]).run(events.drop_first())
        }
    }

    /// Everything that the step needs is there.
    pub open spec fn well_formed(self) -> bool {
        match self.step {
            Step::ClearCache => true,
            Step::Discover => true,
            Step::Anonymous => true,
            Step::Failed => self.error is Some,
            Step::LoadCache => self.discovery is Some,
            Step::OpenFresh => self.discovery is Some,
            Step::BindCallback => self.discovery is Some,
            Step::DiscardCached => self.discovery is Some,
            Step::Authorized => self.discovery is Some,
            Step::OpenCached => self.discovery is Some && self.cached is Some,
            Step::ApplyCached => self.discovery is Some && self.cached is Some,
            Step::RestoreCached => self.discovery is Some && self.cached is Some,
            Step::RefreshCached => self.discovery is Some && self.cached is Some && self.stale,
            Step::ResolveClient => self.discovery is Some && self.redirect_uri is Some
                && self.client() is Document,
            Step::Authorize => self.discovery is Some && self.redirect_uri is Some && (
            self.client() is Document ==> self.client_id is Some),
            Step::BuildUrl => self.discovery is Some,
            Step::OpenBrowser => self.discovery is Some && self.url is Some,
            Step::AwaitCode => self.discovery is Some,
            Step::ExchangeCode => self.discovery is Some && self.code is Some,
        }
    }
}

/// The flow at its start: `--reset-auth` forgets cached credentials before
/// anything else, and `--no-auth` leaves nothing to do after that.
pub open spec fn started<C>(cli: Cli) -> FlowView<C> {
    FlowView {
        cli,
        step: if cli.reset_auth {
            Step::ClearCache
        } else if cli.no_auth {
            Step::Anonymous
        } else {
            Step::Discover
        },
        discovery: None,
        cached: None,
        stale: false,
        redirect_uri: None,
        client_id: None,
        url: None,
        code: None,
        error: None,
    }
}

/// The course of authentication for one launch. `C` is a credential record as
/// it is stored.
#[derive(Debug)]
pub struct Flow<'a, C> {
    cli: &'a Cli,
    step: Step,
    discovery: Option<OAuthDiscovery>,
    cached: Option<(CachedCredentials, C)>,
    stale: bool,
    redirect_uri: Option<String>,
    client_id: Option<String>,
    url: Option<String>,
    code: Option<AuthCode>,
    error: Option<String>,
}

impl<'a, C> View for Flow<'a, C> {
    type V = FlowView<C>;

    closed spec fn view(&self) -> FlowView<C> {
        FlowView {
            cli: *self.cli,
            step: self.step,
            discovery: match self.discovery {
                Some(d) => Some(d@),
                None => None,
            },
            cached: self.cached,
            stale: self.stale,
            redirect_uri: text::opt_text(self.redirect_uri),
            client_id: text::opt_text(self.client_id),
            url: text::opt_text(self.url),
            code: match self.code {
                Some(c) => Some(c@),
                None => None,
            },
            error: text::opt_text(self.error),
        }
    }
}

/// Starts the course of authentication for `cli.server_url`.
pub fn acquire_auth_client<'a, C>(cli: &'a Cli) -> (r: Flow<'a, C>)
    ensures
        r@ == started::<C>(*cli),
{
    Flow {
        cli,
        step: if cli.reset_auth {
            Step::ClearCache
        } else if cli.no_auth {
            Step::Anonymous
        } else {
            Step::Discover
        },
        discovery: None,
        cached: None,
        stale: false,
        redirect_uri: None,
        client_id: None,
        url: None,
        code: None,
        error: None,
    }
}

impl<'a, C> Flow<'a, C> {
    /// Everything that the step needs is there.
    #[verifier::type_invariant]
    pub closed spec fn is_valid(self) -> bool {
        self@.well_formed()
    }

    /// Where the flow stands.
    pub fn step(&self) -> (r: Step)
        ensures
            r == self@.step,
    {
        self.step
    }

    fn restored(self) -> (r: Flow<'a, C>)
        requires
            self@.step is RestoreCached,
        ensures
            r@ == self@.restored(),
    {
        proof {
            use_type_invariant(&self);
        }
        let step: Step = if self.stale {
            Step::RefreshCached
        } else {
            Step::Authorized
        };
        Flow { step, ..self }
    }

    fn failed(self, cause: String) -> (r: Flow<'a, C>)
        ensures
            r@ == self@.failed(cause@),
    {
        proof {
            use_type_invariant(&self);
        }
        match self.step {
            Step::RestoreCached => self.restored(),
            Step::RefreshCached => Flow { step: Step::DiscardCached, ..self },
            Step::DiscardCached => Flow { step: Step::OpenFresh, ..self },
            Step::OpenBrowser => Flow { step: Step::AwaitCode, ..self },
            _ => {
                let mut error: String = self.step.failure_context().to_string();
                error.append(": ");
                error.append(cause.as_str());
                Flow { step: Step::Failed, error: Some(error), ..self }
            },
        }
    }

    fn done(self) -> (r: Flow<'a, C>)
        ensures
            r@ == self@.done(),
    {
        proof {
            use_type_invariant(&self);
        }
        let step: Step = match self.step {
            Step::ClearCache => if self.cli.no_auth {
                Step::Anonymous
            } else {
                Step::Discover
            },
            Step::ApplyCached => Step::RestoreCached,
            Step::RestoreCached => {
                return self.restored();
            },
            Step::RefreshCached => Step::Authorized,
            Step::DiscardCached => Step::OpenFresh,
            Step::Authorize => Step::BuildUrl,
            Step::OpenBrowser => Step::AwaitCode,
            Step::ExchangeCode => Step::Authorized,
            other => other,
        };
        Flow { step, ..self }
    }

    /// Takes note of what came of the action of the present step.
    pub fn advance(self, event: Event<C>) -> (r: Flow<'a, C>)
        requires
            self@.step.answered_by(event@),
        ensures
            r@ == self@.after(event@),
    {
        proof {
            use_type_invariant(&self);
        }
        match event {
            Event::Done => self.done(),
            Event::Failed { cause } => self.failed(cause),
            Event::Requirement(AuthRequirement::NotRequired) => {
                Flow { step: Step::Anonymous, ..self }
            },
            Event::Requirement(AuthRequirement::Required(d)) => {
                Flow { step: Step::LoadCache, discovery: Some(d), ..self }
            },
            Event::Cached(cached) => {
                let usable: bool = match &cached {
                    Some((c, _)) => c.token_response.is_some(),
                    None => false,
                };
                if usable {
                    Flow { step: Step::OpenCached, cached, ..self }
                } else {
                    Flow { step: Step::OpenFresh, ..self }
                }
            },
            Event::Opened { now } => match self.step {
                Step::OpenCached => {
                    let stale: bool = match &self.cached {
                        Some((c, _)) => cached_access_token_is_stale(c, now),
                        None => false,
                    };
                    Flow { step: Step::ApplyCached, stale, ..self }
                },
                _ => Flow { step: Step::BindCallback, ..self },
            },
            Event::Bound { redirect_uri } => {
                let step: Step = match client_source(self.cli) {
                    ClientSource::Document { .. } => Step::ResolveClient,
                    _ => Step::Authorize,
                };
                Flow { step, redirect_uri: Some(redirect_uri), ..self }
            },
            Event::Client { id } => {
                Flow { step: Step::Authorize, client_id: Some(id), ..self }
            },
            Event::Url { url } => Flow { step: Step::OpenBrowser, url: Some(url), ..self },
            Event::Code(code) => Flow { step: Step::ExchangeCode, code: Some(code), ..self },
        }
    }
}

// ---------------------------------------------------------------------------
// Actions
// ---------------------------------------------------------------------------

/// The OAuth client that an authorization is asked for.
#[derive(Debug, Clone, PartialEq, Eq)]
pub enum Client {
    /// One that is registered for it, under this name.
    Register { name: String },
    /// One that is known by this ID.
    Known { id: String },
}

/// The view of a [`Client`].
pub enum ClientView {
    Register { name: Seq<char> },
    Known { id: Seq<char> },
}

impl View for Client {
    type V = ClientView;

    open spec fn view(&self) -> ClientView {
        match self {
            Client::Register { name } => ClientView::Register { name: name@ },
            Client::Known { id } => ClientView::Known { id: id@ },
        }
    }
}

/// What the caller is to do. `C` is a credential record as it is stored.
#[derive(Debug)]
pub enum Action<'b, C> {
    /// Forget the stored credentials.
    Clear,
    /// Probe the server and look for metadata.
    Discover,
    /// Read the stored credentials.
    Load,
    /// Open an OAuth session against this URL, on the credential store.
    Open { base_url: String },
    /// Give the session these credentials, as they were read.
    Apply(&'b C),
    /// Store these credentials, as they were read.
    Restore(&'b C),
    /// Refresh the access token.
    Refresh,
    /// Start a callback server there; port zero lets the system choose.
    Bind { host: String, port: u16 },
    /// Fetch the document at this URL and read the client ID from it.
    FetchClient { url: String },
    /// Start an authorization.
    Authorize { scopes: Vec<String>, redirect_uri: String, client: Client },
    /// Build the URL for the user.
    BuildUrl,
    /// Show this URL to the user.
    Show { url: String },
    /// Wait for the callback, at most so many seconds.
    Await { timeout_secs: u64 },
    /// Exchange the code for tokens, with the state and the issuer that came
    /// with it.
    Exchange(AuthCode),
    /// Nothing more: this is the outcome.
    Finish(FlowEnd),
}

/// How authentication ended.
#[derive(Debug, Clone, PartialEq, Eq)]
pub enum FlowEnd {
    /// The server is used without OAuth.
    Anonymous,
    /// The OAuth session holds usable credentials.
    Authorized,
    /// There is no way to go on, for this reason.
    Failed { message: String },
}

/// The view of an [`Action`].
pub enum ActionView<C> {
    Clear,
    Discover,
    Load,
    Open { base_url: Seq<char> },
    Apply(C),
    Restore(C),
    Refresh,
    Bind { host: Seq<char>, port: u16 },
    FetchClient { url: Seq<char> },
    Authorize { scopes: Seq<Seq<char>>, redirect_uri: Seq<char>, client: ClientView },
    BuildUrl,
    Show { url: Seq<char> },
    Await { timeout_secs: u64 },
    Exchange(AuthCodeView),
    Finish(FlowEndView),
}

/// The view of an [`FlowEnd`].
pub enum FlowEndView {
    Anonymous,
    Authorized,
    Failed { message: Seq<char> },
}

impl View for FlowEnd {
    type V = FlowEndView;

    open spec fn view(&self) -> FlowEndView {
        match self {
            FlowEnd::Anonymous => FlowEndView::Anonymous,
            FlowEnd::Authorized => FlowEndView::Authorized,
            FlowEnd::Failed { message } => FlowEndView::Failed { message: message@ },
        }
    }
}

impl<'b, C> View for Action<'b, C> {
    type V = ActionView<C>;

    open spec fn view(&self) -> ActionView<C> {
        match self {
            Action::Clear => ActionView::Clear,
            Action::Discover => ActionView::Discover,
            Action::Load => ActionView::Load,
            Action::Open { base_url } => ActionView::Open { base_url: base_url@ },
            Action::Apply(c) => ActionView::Apply(**c),
            Action::Restore(c) => ActionView::Restore(**c),
            Action::Refresh => ActionView::Refresh,
            Action::Bind { host, port } => ActionView::Bind { host: host@, port: *port },
            Action::FetchClient { url } => ActionView::FetchClient { url: url@ },
            Action::Authorize { scopes, redirect_uri, client } => ActionView::Authorize {
                scopes: text::texts(scopes@),
                redirect_uri: redirect_uri@,
                client: client@,
            },
            Action::BuildUrl => ActionView::BuildUrl,
            Action::Show { url } => ActionView::Show { url: url@ },
            Action::Await { timeout_secs } => ActionView::Await { timeout_secs: *timeout_secs },
            Action::Exchange(code) => ActionView::Exchange(code@),
            Action::Finish(outcome) => ActionView::Finish(outcome@),
        }
    }
}

impl<C> FlowView<C> {
    /// The OAuth client that the authorization is asked for.
    pub open spec fn authorized_client(self) -> ClientView {
        match self.client() {
            ClientSourceView::Register { name } => ClientView::Register { name },
            ClientSourceView::Known { id } => ClientView::Known { id },
            ClientSourceView::Document { .. } => ClientView::Known { id: self.client_id->0 },
        }
    }

    /// What is to be done at the present step.
    pub open spec fn action(self) -> ActionView<C> {
        match self.step {
            Step::ClearCache => ActionView::Clear,
            Step::Discover => ActionView::Discover,
            Step::LoadCache => ActionView::Load,
            Step::OpenCached => ActionView::Open {
                base_url: self.discovery->0.resource.serialization,
            },
            Step::ApplyCached => ActionView::Apply((self.cached->0).1),
            Step::RestoreCached => ActionView::Restore((self.cached->0).1),
            Step::RefreshCached => ActionView::Refresh,
            Step::DiscardCached => ActionView::Clear,
            Step::OpenFresh => ActionView::Open {
                base_url: self.discovery->0.resource.serialization,
            },
            Step::BindCallback => ActionView::Bind {
                host: self.cli.callback_host@,
                port: match self.cli.callback_port {
                    Some(port) => port,
                    None => 0,
                },
            },
            Step::ResolveClient => ActionView::FetchClient { url: self.client()->url },
            Step::Authorize => ActionView::Authorize {
                scopes: scopes_of(text::opt_text(self.cli.scope), self.discovery->0.scopes),
                redirect_uri: self.redirect_uri->0,
                client: self.authorized_client(),
            },
            Step::BuildUrl => ActionView::BuildUrl,
            Step::OpenBrowser => ActionView::Show { url: self.url->0 },
            Step::AwaitCode => ActionView::Await { timeout_secs: self.cli.auth_timeout_secs },
            Step::ExchangeCode => ActionView::Exchange(self.code->0),
            Step::Anonymous => ActionView::Finish(FlowEndView::Anonymous),
            Step::Authorized => ActionView::Finish(FlowEndView::Authorized),
            Step::Failed => ActionView::Finish(FlowEndView::Failed { message: self.error->0 }),
        }
    }
}

fn text_of(s: &Option<String>) -> (r: String)
    requires
        s is Some,
    ensures
        r@ == s->0@,
{
    match s {
        Some(t) => t.clone(),
        None => String::new(),
    }
}

impl<'a, C> Flow<'a, C> {
    fn base_url(&self) -> (r: String)
        requires
            self@.discovery is Some,
        ensures
            r@ == self@.discovery->0.resource.serialization,
    {
        match &self.discovery {
            Some(d) => d.resource.serialization.clone(),
            None => String::new(),
        }
    }

    fn authorize(&self) -> (r: Action<'_, C>)
        requires
            self@.step is Authorize,
        ensures
            r@ == self@.action(),
    {
        proof {
            use_type_invariant(self);
        }
        let client: Client = match client_source(self.cli) {
            ClientSource::Register { name } => Client::Register { name },
            ClientSource::Known { id } => Client::Known { id },
            ClientSource::Document { .. } => Client::Known { id: text_of(&self.client_id) },
        };
        let scopes: Vec<String> = match &self.discovery {
            Some(d) => effective_scopes(self.cli, d),
            None => Vec::new(),
        };
        Action::Authorize { scopes, redirect_uri: text_of(&self.redirect_uri), client }
    }

    /// What is to be done at the present step.
    pub fn action(&self) -> (r: Action<'_, C>)
        ensures
            r@ == self@.action(),
    {
        proof {
            use_type_invariant(self);
        }
        match self.step {
            Step::ClearCache => Action::Clear,
            Step::Discover => Action::Discover,
            Step::LoadCache => Action::Load,
            Step::OpenCached => Action::Open { base_url: self.base_url() },
            Step::ApplyCached => match &self.cached {
                Some((_, c)) => Action::Apply(c),
                None => Action::Refresh,
            },
            Step::RestoreCached => match &self.cached {
                Some((_, c)) => Action::Restore(c),
                None => Action::Refresh,
            },
            Step::RefreshCached => Action::Refresh,
            Step::DiscardCached => Action::Clear,
            Step::OpenFresh => Action::Open { base_url: self.base_url() },
            Step::BindCallback => Action::Bind {
                host: self.cli.callback_host.clone(),
                port: match self.cli.callback_port {
                    Some(port) => port,
                    None => 0,
                },
            },
            Step::ResolveClient => {
                let url: String = match client_source(self.cli) {
                    ClientSource::Document { url } => url,
                    _ => String::new(),
                };
                Action::FetchClient { url }
            },
            Step::Authorize => self.authorize(),
            Step::BuildUrl => Action::BuildUrl,
            Step::OpenBrowser => Action::Show { url: text_of(&self.url) },
            Step::AwaitCode => Action::Await { timeout_secs: self.cli.auth_timeout_secs },
            Step::ExchangeCode => match &self.code {
                Some(code) => Action::Exchange(code.clone()),
                None => Action::BuildUrl,
            },
            Step::Anonymous => Action::Finish(FlowEnd::Anonymous),
            Step::Authorized => Action::Finish(FlowEnd::Authorized),
            Step::Failed => Action::Finish(FlowEnd::Failed { message: text_of(&self.error) }),
        }
    }
}

// ---------------------------------------------------------------------------
// Laws
// ---------------------------------------------------------------------------

/// With `--no-auth` alone there is nothing to do but to go on anonymously.
pub proof fn law_no_auth_does_nothing<C>(cli: Cli, events: Seq<EventView<C>>)
    requires
        cli.no_auth,
        !cli.reset_auth,
    ensures
        started::<C>(cli).action() == ActionView::<C>::Finish(FlowEndView::Anonymous),
        started::<C>(cli).run(events) == started::<C>(cli),
{
}

/// With `--no-auth` no request is ever made: whatever happens, cached
/// credentials are at most cleared.
pub proof fn law_no_auth_makes_no_request<C>(cli: Cli, events: Seq<EventView<C>>)
    requires
        cli.no_auth,
    ensures
        ({
            let action = started::<C>(cli).run(events).action();
            action is Clear && cli.reset_auth || action is Finish
        }),
{
    let start = started::<C>(cli);
    if events.len() > 0 && start.step.answered_by(events[0]) {
        assert(start.after(events[0]).step.is_final());
        assert(start.after(events[0]).run(events.drop_first()) == start.after(events[0]));
    }
}

/// With `--reset-auth` cached credentials are forgotten before the server is
/// asked and before the store is read, whatever the other flags are.
pub proof fn law_reset_comes_first<C>(cli: Cli, event: EventView<C>)
    requires
        cli.reset_auth,
        started::<C>(cli).step.answered_by(event),
    ensures
        started::<C>(cli).action() == ActionView::<C>::Clear,
        event is Done ==> started::<C>(cli).after(event).action() == if cli.no_auth {
            ActionView::<C>::Finish(FlowEndView::Anonymous)
        } else {
            ActionView::Discover
        },
        event is Failed ==> started::<C>(cli).after(event).step is Failed,
        event is Done || event is Failed,
{
}

/// How many steps lie ahead at most.
pub open spec fn steps_ahead(step: Step) -> nat {
    match step {
        Step::ClearCache => 16,
        Step::Discover => 15,
        Step::LoadCache => 14,
        Step::OpenCached => 13,
        Step::ApplyCached => 12,
        Step::RestoreCached => 11,
        Step::RefreshCached => 10,
        Step::DiscardCached => 9,
        Step::OpenFresh => 8,
        Step::BindCallback => 7,
        Step::ResolveClient => 6,
        Step::Authorize => 5,
        Step::BuildUrl => 4,
        Step::OpenBrowser => 3,
        Step::AwaitCode => 2,
        Step::ExchangeCode => 1,
        Step::Anonymous => 0,
        Step::Authorized => 0,
        Step::Failed => 0,
    }
}

/// No step comes twice, so that every flow ends.
pub proof fn law_every_flow_ends<C>(flow: FlowView<C>, event: EventView<C>)
    requires
        flow.step.answered_by(event),
    ensures
        steps_ahead(flow.after(event).step) < steps_ahead(flow.step),
        steps_ahead(flow.step) == 0 <==> flow.step.is_final(),
{
}

/// Everything that a step needs is there when the step comes.
pub proof fn law_steps_find_what_they_need<C>(cli: Cli, events: Seq<EventView<C>>)
    ensures
        started::<C>(cli).run(events).well_formed(),
{
    lemma_run_well_formed(started::<C>(cli), events);
}

proof fn lemma_run_well_formed<C>(flow: FlowView<C>, events: Seq<EventView<C>>)
    requires
        flow.well_formed(),
    ensures
        flow.run(events).well_formed(),
    decreases events.len(),
{
    if events.len() > 0 && flow.step.answered_by(events[0]) {
        lemma_run_well_formed(flow.after(events[0]), events.drop_first());
    }
}

/// A refresh that fails is never fatal: the dead credentials are forgotten,
/// and, whether or not that works, the user is asked.
pub proof fn law_failed_refresh_is_not_fatal<C>(flow: FlowView<C>, cause: Seq<char>, event: EventView<C>)
    requires
        flow.step is RefreshCached,
        flow.after(EventView::Failed { cause }).step.answered_by(event),
    ensures
        flow.after(EventView::Failed { cause }).action() == ActionView::<C>::Clear,
        flow.after(EventView::Failed { cause }).after(event).step is OpenFresh,
{
}

/// With a cached token the user is not asked. The session is given the
/// credentials that were read, and the very same are stored back, so that the
/// true time of receipt survives. They are used at once; a stale token is
/// refreshed before that.
pub proof fn law_cached_tokens_need_no_user<C>(
    flow: FlowView<C>,
    cached: CachedCredentials,
    credentials: C,
    now: u64,
    done: EventView<C>,
)
    requires
        flow.step is LoadCache,
        cached.token_response is Some,
        Step::RestoreCached.answered_by(done),
    ensures
        ({
            let opening = flow.after(EventView::Cached(Some((cached, credentials))));
            let applying = opening.after(EventView::Opened { now });
            let restoring = applying.after(EventView::Done);
            let restored = restoring.after(done);
            &&& opening.action() is Open
            &&& applying.action() == ActionView::Apply(credentials)
            &&& restoring.action() == ActionView::Restore(credentials)
            &&& if cache::is_stale(cached, now) {
                &&& restored.action() == ActionView::<C>::Refresh
                &&& restored.after(EventView::Done).action() == ActionView::<C>::Finish(
                    FlowEndView::Authorized,
                )
            } else {
                restored.action() == ActionView::<C>::Finish(FlowEndView::Authorized)
            }
        }),
{
}

/// The user is asked only where no token is cached, or where a cached one
/// could not be refreshed.
pub proof fn law_the_user_is_asked_last<C>(flow: FlowView<C>, event: EventView<C>)
    requires
        flow.step.answered_by(event),
        flow.after(event).step is OpenFresh,
    ensures
        flow.step is DiscardCached || (flow.step is LoadCache && (event matches EventView::Cached(
            cached,
        ) && (cached matches Some((c, _)) ==> c.token_response is None))),
{
}

/// Where nothing is cached, as after `--reset-auth`, credentials come from an
/// authorization code and from nowhere else.
pub proof fn law_an_empty_cache_needs_the_user<C>(flow: FlowView<C>, events: Seq<EventView<C>>)
    requires
        flow.step is LoadCache,
        flow.code is None,
    ensures
        ({
            let end = flow.after(EventView::Cached(None)).run(events);
            end.step is Authorized ==> end.code is Some
        }),
{
    lemma_interactive(flow.after(EventView::Cached(None)), events);
}

/// Is this a flow that asks the user, or one that has done so?
pub open spec fn is_interactive<C>(flow: FlowView<C>) -> bool {
    match flow.step {
        Step::OpenFresh => true,
        Step::BindCallback => true,
        Step::ResolveClient => true,
        Step::Authorize => true,
        Step::BuildUrl => true,
        Step::OpenBrowser => true,
        Step::AwaitCode => true,
        Step::ExchangeCode => flow.code is Some,
        Step::Authorized => flow.code is Some,
        Step::Failed => true,
        _ => false,
    }
}

proof fn lemma_interactive<C>(flow: FlowView<C>, events: Seq<EventView<C>>)
    requires
        is_interactive(flow),
    ensures
        is_interactive(flow.run(events)),
    decreases events.len(),
{
    if events.len() > 0 && flow.step.answered_by(events[0]) {
        lemma_interactive(flow.after(events[0]), events.drop_first());
    }
}

/// Credentials are discarded only after a refresh has failed.
pub proof fn law_only_dead_credentials_are_discarded<C>(flow: FlowView<C>, event: EventView<C>)
    requires
        flow.step.answered_by(event),
        flow.after(event).step is DiscardCached,
    ensures
        flow.step is RefreshCached,
        event is Failed,
{
}

/// The code is exchanged with the state and the issuer that came with it.
pub proof fn law_the_issuer_is_forwarded<C>(flow: FlowView<C>, code: AuthCodeView)
    requires
        flow.step is AwaitCode,
    ensures
        flow.after(EventView::Code(code)).action() == ActionView::<C>::Exchange(code),
{
}

/// OAuth sessions are opened against the resource.
pub proof fn law_sessions_are_opened_against_the_resource<C>(flow: FlowView<C>, d: OAuthDiscoveryView)
    requires
        flow.discovery == Some(d),
        flow.step is OpenCached || flow.step is OpenFresh,
    ensures
        flow.action() == (ActionView::<C>::Open { base_url: d.resource.serialization }),
{
}

/// A server is used anonymously, short of `--no-auth`, only where it does not
/// require OAuth.
pub proof fn law_anonymous_only_where_oauth_is_not_required<C>(
    flow: FlowView<C>,
    event: EventView<C>,
)
    requires
        flow.step.answered_by(event),
        flow.after(event).step is Anonymous,
    ensures
        flow.cli.no_auth || event == EventView::<C>::Requirement(
            AuthRequirementView::NotRequired,
        ),
{
}

/// A failure ends the flow, with the reason, unless the step can do without.
pub proof fn law_failures_are_reported<C>(flow: FlowView<C>, cause: Seq<char>)
    requires
        !flow.step.is_final(),
    ensures
        flow.step.tolerates_failure() ==> !(flow.after(EventView::Failed { cause }).step is Failed),
        !flow.step.tolerates_failure() ==> flow.after(EventView::Failed { cause }).action()
            == ActionView::<C>::Finish(
            FlowEndView::Failed { message: flow.step.context() + ": "@ + cause },
        ),
{
}

/// The scopes of the command line are what is asked for, word by word,
/// whatever stands between the words as long as it is commas and white space,
/// and whatever the server announced. Without the flag it is what the server
/// announced.
pub proof fn law_the_scope_flag_goes_before_the_server(
    words: Seq<Seq<char>>,
    gaps: Seq<Seq<char>>,
    discovered: Seq<Seq<char>>,
)
    requires
        gaps.len() == words.len() + 1,
        text::are_words(words, CharClass::WhiteSpaceOr(',')),
        text::are_gaps(gaps, CharClass::WhiteSpaceOr(',')),
    ensures
        scopes_of(Some(text::with_gaps(words, gaps)), discovered) == words,
        scopes_of(None, discovered) == discovered,
{
    text::law_fields_are_the_words(words, gaps, CharClass::WhiteSpaceOr(','));
}

/// A scope of the command line that holds no comma and no white space is
/// asked for as it is, alone.
pub proof fn law_one_scope_is_asked_for_alone(scope: Seq<char>, discovered: Seq<Seq<char>>)
    requires
        scope.len() > 0,
        forall|i: int|
            0 <= i < scope.len() ==> #[trigger] scope[i] != ',' && !text::is_white_space(scope[i]),
    ensures
        scopes_of(Some(scope), discovered) == seq![scope],
{
    let k = CharClass::WhiteSpaceOr(',');
    let none = Seq::<char>::empty();
    let words = seq![scope];
    let gaps = seq![none, none];
    assert(text::is_word(words[0], k));
    assert(text::is_gap(none, k));
    text::law_fields_are_the_words(words, gaps, k);
    reveal_with_fuel(text::with_gaps, 2);
    assert(text::with_gaps(words, gaps) =~= scope);
}

/// With the flag, two servers that announce different scopes are asked for the
/// same ones.
pub proof fn law_the_scope_flag_hides_the_server<C>(
    flow: FlowView<C>,
    other: FlowView<C>,
    d: OAuthDiscoveryView,
    e: OAuthDiscoveryView,
)
    requires
        flow.step is Authorize,
        flow.cli.scope is Some,
        flow.discovery == Some(d),
        other == (FlowView { discovery: Some(e), ..flow }),
    ensures
        flow.action() matches ActionView::Authorize { scopes, .. } && other.action()
            matches ActionView::Authorize { scopes: others, .. } && scopes == others,
{
}

/// How an authorization by the user goes on, from the session that was opened
/// for it to the credentials. The callback server listens where the command
/// line says; the authorization is asked for with its scopes, for its client
/// and with the redirect URI of the callback server; the URL that was built is
/// shown; and the code that came is exchanged.
pub proof fn law_the_user_is_led_to_credentials<C>(
    flow: FlowView<C>,
    d: OAuthDiscoveryView,
    words: Seq<Seq<char>>,
    gaps: Seq<Seq<char>>,
    now: u64,
    redirect_uri: Seq<char>,
    document_id: Seq<char>,
    url: Seq<char>,
    shown: EventView<C>,
    code: AuthCodeView,
)
    requires
        flow.step is OpenFresh,
        flow.discovery == Some(d),
        gaps.len() == words.len() + 1,
        text::are_words(words, CharClass::WhiteSpaceOr(',')),
        text::are_gaps(gaps, CharClass::WhiteSpaceOr(',')),
        flow.cli.scope matches Some(s) ==> s@ == text::with_gaps(words, gaps),
        shown is Done || shown is Failed,
    ensures
        ({
            let cli = flow.cli;
            let scopes = if cli.scope is Some {
                words
            } else {
                d.scopes
            };
            let binding = flow.after(EventView::Opened { now });
            let bound = binding.after(EventView::Bound { redirect_uri });
            let by_document = cli.client_id is Some && cli.client_id->0@.len() >= 8
                && cli.client_id->0@.take(8) == "https://"@;
            let asking = if by_document {
                bound.after(EventView::Client { id: document_id })
            } else {
                bound
            };
            let building = asking.after(EventView::Done);
            let showing = building.after(EventView::Url { url });
            let waiting = showing.after(shown);
            let exchanging = waiting.after(EventView::Code(code));
            let end = exchanging.after(EventView::Done);
            &&& binding.action() == (ActionView::<C>::Bind {
                host: cli.callback_host@,
                port: if cli.callback_port is Some {
                    cli.callback_port->0
                } else {
                    0
                },
            })
            &&& by_document ==> bound.action() == (ActionView::<C>::FetchClient {
                url: cli.client_id->0@,
            })
            &&& asking.action() == (ActionView::<C>::Authorize {
                scopes,
                redirect_uri,
                client: if cli.client_id is None {
                    ClientView::Register { name: cli.client_name@ }
                } else if by_document {
                    ClientView::Known { id: document_id }
                } else {
                    ClientView::Known { id: cli.client_id->0@ }
                },
            })
            &&& building.action() == ActionView::<C>::BuildUrl
            &&& showing.action() == (ActionView::<C>::Show { url })
            &&& waiting.action() == (ActionView::<C>::Await {
                timeout_secs: cli.auth_timeout_secs,
            })
            &&& exchanging.action() == ActionView::<C>::Exchange(code)
            &&& end.action() == ActionView::<C>::Finish(FlowEndView::Authorized)
        }),
{
    reveal_strlit("https://");
    if flow.cli.scope is Some {
        law_the_scope_flag_goes_before_the_server(words, gaps, d.scopes);
    }
    match flow.cli.client_id {
        Some(id) => {
            let head = "https://"@;
            if id@.len() >= 8 {
                assert(id@.take(8) =~= id@.subrange(0, 8));
            }
            assert(head.is_prefix_of(id@) <==> id@.len() >= 8 && id@.take(8) == head);
        },
        None => {},
    }
}

/// What the server requires decides how the flow goes on: not at all, or with
/// the credentials that are stored for it, or with the user. Sessions are
/// opened against the resource that was found out.
pub proof fn law_the_server_decides_what_comes_next<C>(
    flow: FlowView<C>,
    d: OAuthDiscoveryView,
    cached: Option<(CachedCredentials, C)>,
)
    requires
        flow.step is Discover,
    ensures
        ({
            let free = flow.after(EventView::Requirement(AuthRequirementView::NotRequired));
            let loading = flow.after(EventView::Requirement(AuthRequirementView::Required(d)));
            let opening = loading.after(EventView::Cached(cached));
            &&& flow.action() == ActionView::<C>::Discover
            &&& free.action() == ActionView::<C>::Finish(FlowEndView::Anonymous)
            &&& loading.action() == ActionView::<C>::Load
            &&& loading.discovery == Some(d)
            &&& opening.discovery == Some(d)
            &&& opening.action() == (ActionView::<C>::Open {
                base_url: d.resource.serialization,
            })
            &&& opening.step is OpenCached <==> (cached is Some
                && (cached->0).0.token_response is Some)
            &&& opening.step is OpenFresh <==> !(opening.step is OpenCached)
            &&& opening.step is OpenCached ==> opening.cached == cached
        }),
{
}

/// Where nothing was asked for on the command line, the first thing to do is
/// to find out what the server requires.
pub proof fn law_the_flow_starts_with_discovery<C>(cli: Cli)
    requires
        !cli.no_auth,
        !cli.reset_auth,
    ensures
        started::<C>(cli).action() == ActionView::<C>::Discover,
        started::<C>(cli).cli == cli,
        started::<C>(cli).step is Discover,
{
}

/// Nothing that happens changes the command line, what the server requires,
/// or the URI, client, URL and code that were noted, short of the event that
/// brings a new one.
pub proof fn law_what_was_noted_stays<C>(flow: FlowView<C>, event: EventView<C>)
    ensures
        ({
            let next = flow.after(event);
            &&& next.cli == flow.cli
            &&& !(event is Requirement) ==> next.discovery == flow.discovery
            &&& !(event is Cached) ==> next.cached == flow.cached
            &&& !(event is Opened) ==> next.stale == flow.stale
            &&& !(event is Bound) ==> next.redirect_uri == flow.redirect_uri
            &&& !(event is Client) ==> next.client_id == flow.client_id
            &&& !(event is Url) ==> next.url == flow.url
            &&& !(event is Code) ==> next.code == flow.code
            &&& !(event is Failed) ==> next.error == flow.error
        }),
{
}

/// A step that is not the last can fail, and it can end in what its action
/// brings; the last steps end in nothing.
pub proof fn law_every_action_can_be_answered<C>(
    flow: FlowView<C>,
    cause: Seq<char>,
    requirement: AuthRequirementView,
    cached: Option<(CachedCredentials, C)>,
    now: u64,
    text: Seq<char>,
    code: AuthCodeView,
)
    ensures
        ({
            let step = flow.step;
            let action = flow.action();
            &&& step.answered_by(EventView::<C>::Failed { cause }) <==> !(action is Finish)
            &&& step.answered_by(EventView::<C>::Requirement(requirement)) <==> action is Discover
            &&& step.answered_by(EventView::<C>::Cached(cached)) <==> action is Load
            &&& step.answered_by(EventView::<C>::Opened { now }) <==> action is Open
            &&& step.answered_by(EventView::<C>::Bound { redirect_uri: text }) <==> action is Bind
            &&& step.answered_by(EventView::<C>::Client { id: text }) <==> action is FetchClient
            &&& step.answered_by(EventView::<C>::Url { url: text }) <==> action is BuildUrl
            &&& step.answered_by(EventView::<C>::Code(code)) <==> action is Await
            &&& step.answered_by(EventView::<C>::Done) <==> (action is Clear || action is Apply
                || action is Restore || action is Refresh || action is Authorize
                || action is Show || action is Exchange)
        }),
{
}

/// What the user is told when the flow cannot go on: what was being done, and
/// why it did not work.
pub proof fn law_failures_say_what_was_being_done<C>(flow: FlowView<C>, cause: Seq<char>)
    ensures
        ({
            let end = flow.after(EventView::Failed { cause }).action();
            let told = |what: Seq<char>|
                end == ActionView::<C>::Finish(
                    FlowEndView::Failed { message: what + ": "@ + cause },
                );
            &&& flow.step is ClearCache ==> told("failed to clear cached credentials"@)
            &&& flow.step is Discover ==> told("failed to discover OAuth requirements"@)
            &&& flow.step is LoadCache ==> told("failed to load cached credentials"@)
            &&& flow.step is OpenCached || flow.step is OpenFresh ==> told(
                "failed to initialize OAuth state machine"@,
            )
            &&& flow.step is ApplyCached ==> told("failed to apply cached credentials"@)
            &&& flow.step is BindCallback ==> told(
                "interactive OAuth flow failed: failed to start local OAuth callback server"@,
            )
            &&& flow.step is ResolveClient ==> told(
                "interactive OAuth flow failed: failed to fetch the client ID metadata document"@,
            )
            &&& flow.step is Authorize ==> told(
                "interactive OAuth flow failed: OAuth authorization start failed (dynamic registration?)"@,
            )
            &&& flow.step is BuildUrl ==> told(
                "interactive OAuth flow failed: failed to build authorization URL"@,
            )
            &&& flow.step is AwaitCode ==> told(
                "interactive OAuth flow failed: OAuth callback wait failed"@,
            )
            &&& flow.step is ExchangeCode ==> told(
                "interactive OAuth flow failed: OAuth code exchange failed"@,
            )
        }),
{
}

/// A page that cannot be opened, and credentials that cannot be written back,
/// refreshed or forgotten, do not end the flow.
pub proof fn law_some_failures_do_not_matter<C>(flow: FlowView<C>, cause: Seq<char>)
    ensures
        ({
            let next = flow.after(EventView::Failed { cause });
            &&& flow.step is OpenBrowser ==> next == flow.after(EventView::Done)
            &&& flow.step is RestoreCached ==> next == flow.after(EventView::Done)
            &&& flow.step is DiscardCached ==> next == flow.after(EventView::Done)
            &&& flow.step is RefreshCached ==> next.action() == ActionView::<C>::Clear
                && !next.step.is_final()
        }),
{
}

/// An action is seen with all that it holds.
pub proof fn law_actions_are_seen_whole<C>(action: Action<'_, C>)
    ensures
        match action {
            Action::Clear => action@ is Clear,
            Action::Discover => action@ is Discover,
            Action::Load => action@ is Load,
            Action::Open { base_url } => action@ is Open && action@->base_url == base_url@,
            Action::Apply(c) => action@ is Apply && action@->Apply_0 == *c,
            Action::Restore(c) => action@ is Restore && action@->Restore_0 == *c,
            Action::Refresh => action@ is Refresh,
            Action::Bind { host, port } => action@ is Bind && action@->host == host@
                && action@->port == port,
            Action::FetchClient { url } => action@ is FetchClient && action@->FetchClient_url
                == url@,
            Action::Authorize { scopes, redirect_uri, client } => {
                &&& action@ is Authorize
                &&& action@->scopes == text::texts(scopes@)
                &&& action@->redirect_uri == redirect_uri@
                &&& match client {
                    Client::Register { name } => action@->client is Register
                        && action@->client->name == name@,
                    Client::Known { id } => action@->client is Known && action@->client->id
                        == id@,
                }
            },
            Action::BuildUrl => action@ is BuildUrl,
            Action::Show { url } => action@ is Show && action@->Show_url == url@,
            Action::Await { timeout_secs } => action@ is Await && action@->timeout_secs
                == timeout_secs,
            Action::Exchange(code) => action@ is Exchange && action@->Exchange_0 == code@,
            Action::Finish(end) => {
                &&& action@ is Finish
                &&& match end {
                    FlowEnd::Anonymous => action@->Finish_0 is Anonymous,
                    FlowEnd::Authorized => action@->Finish_0 is Authorized,
                    FlowEnd::Failed { message } => action@->Finish_0 is Failed
                        && action@->Finish_0->message == message@,
                }
            },
        },
{
}

/// An event is seen with all that it holds.
pub proof fn law_events_are_seen_whole<C>(event: Event<C>)
    ensures
        match event {
            Event::Done => event@ is Done,
            Event::Failed { cause } => event@ is Failed && event@->cause == cause@,
            Event::Requirement(r) => event@ is Requirement && event@->Requirement_0 == r@,
            Event::Cached(c) => event@ is Cached && event@->Cached_0 == c,
            Event::Opened { now } => event@ is Opened && event@->now == now,
            Event::Bound { redirect_uri } => event@ is Bound && event@->redirect_uri
                == redirect_uri@,
            Event::Client { id } => event@ is Client && event@->id == id@,
            Event::Url { url } => event@ is Url && event@->url == url@,
            Event::Code(code) => event@ is Code && event@->Code_0 == code@,
        },
{
}

/// `--client-id` names the document with the ID where it starts with
/// `https://`, else it is the ID; without it a client is registered under the
/// name that was given.
pub proof fn law_the_client_flag(rest: Seq<char>, id: Seq<char>, name: Seq<char>)
    requires
        id.len() < 8 || id.take(8) != "https://"@,
    ensures
        client_of(None, name) is Register && client_of(None, name)->name == name,
        client_of(Some("https://"@ + rest), name) is Document,
        client_of(Some("https://"@ + rest), name)->url == "https://"@ + rest,
        client_of(Some(id), name) is Known && client_of(Some(id), name)->id == id,
{
    reveal_strlit("https://");
    let head = "https://"@;
    assert((head + rest).subrange(0, 8) =~= head);
    if head.is_prefix_of(id) {
        assert(id.take(8) =~= id.subrange(0, 8));
    }
}

/// The source of a client is seen with all that it holds.
pub proof fn law_client_sources_are_seen_whole(source: ClientSource)
    ensures
        match source {
            ClientSource::Register { name } => source@ is Register && source@->name == name@,
            ClientSource::Known { id } => source@ is Known && source@->id == id@,
            ClientSource::Document { url } => source@ is Document && source@->url == url@,
        },
{
}

} // verus!
