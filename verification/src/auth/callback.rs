//! The OAuth authorization-code redirect.
//!
//! The authorization server sends the browser of the user to a local HTTP
//! server, at a single path, with the authorization code or an error in the
//! query. The first such call settles the flow; the server is then shut down.
//! This module decides what each call means and what the waiting side gets;
//! listening is left to the caller.

use vstd::prelude::*;
use vstd::string::*;

use crate::number;
use crate::text;

verus! {

/// Path the authorization server will redirect to.
pub const CALLBACK_PATH: &'static str = "/oauth/callback";

/// The page that the browser shows after a successful callback.
pub const SUCCESS_HTML: &'static str = "<!doctype html>\n<html><head><title>Authorization complete</title>\n<style>body{font-family:system-ui,sans-serif;margin:4em auto;max-width:32em;text-align:center}</style>\n</head><body>\n<h1>✅ Authorization complete</h1>\n<p>You can close this tab and return to your MCP client.</p>\n<script>setTimeout(()=>window.close(),500);</script>\n</body></html>";

/// The page that the browser shows after a callback with an error.
pub const FAILURE_HTML: &'static str = "<!doctype html>\n<html><head><title>Authorization failed</title>\n<style>body{font-family:system-ui,sans-serif;margin:4em auto;max-width:32em;text-align:center;color:#900}</style>\n</head><body>\n<h1>❌ Authorization failed</h1>\n<p>Check the proxy's stderr for details, then try again.</p>\n</body></html>";

/// The result of a successful OAuth callback.
#[derive(Debug, PartialEq, Eq)]
pub struct AuthCode {
    /// The authorization code.
    pub code: String,
    /// The state that the request was sent with.
    pub state: String,
    /// Issuer identifier of the authorization server (RFC 9207), if it sent
    /// one. Servers that announce it require it back with the code.
    pub iss: Option<String>,
}

/// The view of an [`AuthCode`].
pub struct AuthCodeView {
    pub code: Seq<char>,
    pub state: Seq<char>,
    pub iss: Option<Seq<char>>,
}

impl View for AuthCode {
    type V = AuthCodeView;

    open spec fn view(&self) -> AuthCodeView {
        AuthCodeView { code: self.code@, state: self.state@, iss: text::opt_text(self.iss) }
    }
}

impl Clone for AuthCode {
    fn clone(&self) -> (r: AuthCode)
        ensures
            r@ == self@,
    {
        AuthCode {
            code: self.code.clone(),
            state: self.state.clone(),
            iss: text::copied_option(&self.iss),
        }
    }
}

/// Why a callback brought no authorization code.
#[derive(Debug, PartialEq, Eq)]
pub enum CallbackError {
    /// The authorization server reported an error.
    AuthServer { error: String, description: Option<String> },
    /// The code or the state is missing.
    MissingCode,
}

/// The view of a [`CallbackError`].
pub enum CallbackErrorView {
    AuthServer { error: Seq<char>, description: Option<Seq<char>> },
    MissingCode,
}

impl View for CallbackError {
    type V = CallbackErrorView;

    open spec fn view(&self) -> CallbackErrorView {
        match self {
            CallbackError::AuthServer { error, description } => CallbackErrorView::AuthServer {
                error: error@,
                description: text::opt_text(*description),
            },
            CallbackError::MissingCode => CallbackErrorView::MissingCode,
        }
    }
}

impl CallbackErrorView {
    /// What the user is told.
    pub open spec fn message(self) -> Seq<char> {
        match self {
            CallbackErrorView::AuthServer { error, description } =>
                "authorization server returned error: "@ + error + (match description {
                    Some(d) => " ("@ + d + ")"@,
                    None => seq![],
                }),
            CallbackErrorView::MissingCode =>
                "callback did not include an authorization code"@,
        }
    }
}

impl CallbackError {
    /// What the user is told.
    pub fn message(&self) -> (r: String)
        ensures
            r@ == self@.message(),
    {
        let mut out: String = String::new();
        match self {
            CallbackError::AuthServer { error, description } => {
                out.append("authorization server returned error: ");
                out.append(error.as_str());
                match description {
                    Some(d) => {
                        out.append(" (");
                        out.append(d.as_str());
                        out.append(")");
                    },
                    None => {},
                }
            },
            CallbackError::MissingCode => {
                out.append("callback did not include an authorization code");
            },
        }
        assert(out@ =~= self@.message());
        out
    }
}

/// The parameters of a call of the callback path.
#[derive(Debug)]
pub struct CallbackQuery {
    pub code: Option<String>,
    pub state: Option<String>,
    pub error: Option<String>,
    pub error_description: Option<String>,
    pub iss: Option<String>,
}

/// What a call of the callback path means: an error goes before anything
/// else, and a code counts only together with a state.
pub open spec fn resolved(q: CallbackQuery) -> Result<AuthCodeView, CallbackErrorView> {
    match (q.error, q.code, q.state) {
        (Some(error), _, _) => Err(
            CallbackErrorView::AuthServer {
                error: error@,
                description: text::opt_text(q.error_description),
            },
        ),
        (None, Some(code), Some(state)) => Ok(
            AuthCodeView { code: code@, state: state@, iss: text::opt_text(q.iss) },
        ),
        _ => Err(CallbackErrorView::MissingCode),
    }
}

/// The view of what a callback brought.
pub open spec fn answer_view(r: Result<AuthCode, CallbackError>) -> Result<
    AuthCodeView,
    CallbackErrorView,
> {
    match r {
        Ok(code) => Ok(code@),
        Err(e) => Err(e@),
    }
}

/// What a call of the callback path means.
pub fn resolve(q: CallbackQuery) -> (r: Result<AuthCode, CallbackError>)
    ensures
        answer_view(r) == resolved(q),
{
    if let Some(error) = q.error {
        Err(CallbackError::AuthServer { error, description: q.error_description })
    } else if let (Some(code), Some(state)) = (q.code, q.state) {
        Ok(AuthCode { code, state, iss: q.iss })
    } else {
        Err(CallbackError::MissingCode)
    }
}

/// Why waiting for the callback brought no authorization code.
#[derive(Debug, PartialEq, Eq)]
pub enum WaitError {
    /// The callback came, without a code.
    Callback(CallbackError),
    /// The server went away before a callback came.
    Dropped,
    /// No callback came in time.
    TimedOut { secs: u64 },
}

/// The view of a [`WaitError`].
pub enum WaitErrorView {
    Callback(CallbackErrorView),
    Dropped,
    TimedOut { secs: u64 },
}

impl View for WaitError {
    type V = WaitErrorView;

    open spec fn view(&self) -> WaitErrorView {
        match self {
            WaitError::Callback(e) => WaitErrorView::Callback(e@),
            WaitError::Dropped => WaitErrorView::Dropped,
            WaitError::TimedOut { secs } => WaitErrorView::TimedOut { secs: *secs },
        }
    }
}

impl WaitErrorView {
    /// What the user is told.
    pub open spec fn message(self) -> Seq<char> {
        match self {
            WaitErrorView::Callback(e) => e.message(),
            WaitErrorView::Dropped => "OAuth callback channel dropped before receiving a code"@,
            WaitErrorView::TimedOut { secs } => "timed out after "@ + number::decimal(secs as nat)
                + "s waiting for OAuth callback; the user did not complete the authorization flow"@,
        }
    }
}

impl WaitError {
    /// What the user is told.
    pub fn message(&self) -> (r: String)
        ensures
            r@ == self@.message(),
    {
        match self {
            WaitError::Callback(e) => e.message(),
            WaitError::Dropped => "OAuth callback channel dropped before receiving a code".to_string(),
            WaitError::TimedOut { secs } => {
                let mut out: String = "timed out after ".to_string();
                out.append(number::print(*secs).as_str());
                out.append(
                    "s waiting for OAuth callback; the user did not complete the authorization flow",
                );
                out
            },
        }
    }
}

/// What is known of a running callback server.
#[derive(Debug)]
pub struct CallbackServer {
    /// `http://host:port/oauth/callback`, to register as the OAuth redirect.
    pub redirect_uri: String,
    /// What the first callback brought.
    pub answer: Option<Result<AuthCode, CallbackError>>,
}

/// The view of a [`CallbackServer`].
pub struct CallbackServerView {
    pub redirect_uri: Seq<char>,
    pub answer: Option<Result<AuthCodeView, CallbackErrorView>>,
}

impl View for CallbackServer {
    type V = CallbackServerView;

    open spec fn view(&self) -> CallbackServerView {
        CallbackServerView {
            redirect_uri: self.redirect_uri@,
            answer: match self.answer {
                Some(r) => Some(answer_view(r)),
                None => None,
            },
        }
    }
}

impl CallbackServerView {
    /// The server after a call of the callback path: only the first counts.
    pub open spec fn after(self, q: CallbackQuery) -> CallbackServerView {
        if self.answer is None {
            CallbackServerView { answer: Some(resolved(q)), ..self }
        } else {
            self
        }
    }

    /// What the waiting side gets. `timed_out` says that the time was over
    /// before the first callback came.
    pub open spec fn outcome(self, timed_out: bool, secs: u64) -> Result<
        AuthCodeView,
        WaitErrorView,
    > {
        if timed_out {
            Err(WaitErrorView::TimedOut { secs })
        } else {
            match self.answer {
                Some(Ok(code)) => Ok(code),
                Some(Err(e)) => Err(WaitErrorView::Callback(e)),
                None => Err(WaitErrorView::Dropped),
            }
        }
    }
}

impl CallbackServer {
    /// The server that came of an attempt to listen on `host`, or the error
    /// that it failed with.
    pub fn bind(host: &str, attempt: BindAttempt) -> (r: Result<CallbackServer, BindError>)
        ensures
            match attempt {
                BindAttempt::Listening { addr } => r matches Ok(server) && server@ == (
                CallbackServerView {
                    redirect_uri: "http://"@ + addr@ + CALLBACK_PATH@,
                    answer: None,
                }),
                BindAttempt::NoAddress { cause } => r matches Err(e) && e@ == (
                BindErrorView::InvalidHost { host: host@, cause: cause@ }),
                BindAttempt::NotLoopback => r matches Err(e) && e@ == (
                BindErrorView::NotLoopback { host: host@ }),
                BindAttempt::Unavailable { addr, cause } => r matches Err(e) && e@ == (
                BindErrorView::Unavailable { addr: addr@, cause: cause@ }),
            },
    {
        match attempt {
            BindAttempt::Listening { addr } => {
                let mut redirect_uri: String = "http://".to_string();
                redirect_uri.append(addr.as_str());
                redirect_uri.append(CALLBACK_PATH);
                Ok(CallbackServer { redirect_uri, answer: None })
            },
            BindAttempt::NoAddress { cause } => Err(
                BindError::InvalidHost { host: host.to_string(), cause },
            ),
            BindAttempt::NotLoopback => Err(BindError::NotLoopback { host: host.to_string() }),
            BindAttempt::Unavailable { addr, cause } => Err(BindError::Unavailable { addr, cause }),
        }
    }

    /// Takes note of a call of the callback path, and gives the page to
    /// answer it with.
    pub fn handle_callback(&mut self, q: CallbackQuery) -> (page: &'static str)
        ensures
            final(self)@ == old(self)@.after(q),
            page@ == if resolved(q) is Ok {
                SUCCESS_HTML@
            } else {
                FAILURE_HTML@
            },
    {
        let result: Result<AuthCode, CallbackError> = resolve(q);
        let is_ok: bool = result.is_ok();
        if self.answer.is_none() {
            self.answer = Some(result);
        }
        if is_ok {
            SUCCESS_HTML
        } else {
            FAILURE_HTML
        }
    }

    /// What the waiting side gets. `timed_out` says that `timeout_secs` were
    /// over before the first callback came.
    pub fn wait(self, timed_out: bool, timeout_secs: u64) -> (r: Result<AuthCode, WaitError>)
        ensures
            match r {
                Ok(code) => self@.outcome(timed_out, timeout_secs) == Ok::<_, WaitErrorView>(code@),
                Err(e) => self@.outcome(timed_out, timeout_secs) == Err::<AuthCodeView, _>(e@),
            },
    {
        if timed_out {
            return Err(WaitError::TimedOut { secs: timeout_secs });
        }
        match self.answer {
            Some(Ok(code)) => Ok(code),
            Some(Err(e)) => Err(WaitError::Callback(e)),
            None => Err(WaitError::Dropped),
        }
    }
}

/// What came of an attempt to listen for the callback.
#[derive(Debug)]
pub enum BindAttempt {
    /// The host is no IP address.
    NoAddress { cause: String },
    /// The host is an IP address that other machines could reach. It is not
    /// listened on.
    NotLoopback,
    /// The address, given as `host:port`, cannot be listened on.
    Unavailable { addr: String, cause: String },
    /// The address, given as `host:port`, is listened on.
    Listening { addr: String },
}

/// Why no callback server could be started.
#[derive(Debug, PartialEq, Eq)]
pub enum BindError {
    /// The host is no IP address.
    InvalidHost { host: String, cause: String },
    /// The host is not a loopback address.
    NotLoopback { host: String },
    /// The address cannot be listened on.
    Unavailable { addr: String, cause: String },
}

/// The view of a [`BindError`].
pub enum BindErrorView {
    InvalidHost { host: Seq<char>, cause: Seq<char> },
    NotLoopback { host: Seq<char> },
    Unavailable { addr: Seq<char>, cause: Seq<char> },
}

impl View for BindError {
    type V = BindErrorView;

    open spec fn view(&self) -> BindErrorView {
        match self {
            BindError::InvalidHost { host, cause } => {
                BindErrorView::InvalidHost { host: host@, cause: cause@ }
            },
            BindError::NotLoopback { host } => BindErrorView::NotLoopback { host: host@ },
            BindError::Unavailable { addr, cause } => {
                BindErrorView::Unavailable { addr: addr@, cause: cause@ }
            },
        }
    }
}

impl BindErrorView {
    /// What the user is told.
    pub open spec fn message(self) -> Seq<char> {
        match self {
            BindErrorView::InvalidHost { host, cause } => "invalid callback host '"@ + host
                + "': "@ + cause,
            BindErrorView::NotLoopback { host } => "refusing to bind OAuth callback server to '"@
                + host + "': not a loopback address"@,
            BindErrorView::Unavailable { addr, cause } =>
                "failed to bind OAuth callback server to "@ + addr + ": "@ + cause,
        }
    }
}

impl BindError {
    /// What the user is told.
    pub fn message(&self) -> (r: String)
        ensures
            r@ == self@.message(),
    {
        let mut out: String = String::new();
        match self {
            BindError::InvalidHost { host, cause } => {
                out.append("invalid callback host '");
                out.append(host.as_str());
                out.append("': ");
                out.append(cause.as_str());
            },
            BindError::NotLoopback { host } => {
                out.append("refusing to bind OAuth callback server to '");
                out.append(host.as_str());
                out.append("': not a loopback address");
            },
            BindError::Unavailable { addr, cause } => {
                out.append("failed to bind OAuth callback server to ");
                out.append(addr.as_str());
                out.append(": ");
                out.append(cause.as_str());
            },
        }
        assert(out@ =~= self@.message());
        out
    }
}

// ---------------------------------------------------------------------------
// Laws
// ---------------------------------------------------------------------------

/// Once a callback was taken note of, later ones change nothing.
pub proof fn law_the_first_callback_counts(
    server: CallbackServerView,
    first: CallbackQuery,
    second: CallbackQuery,
)
    requires
        server.answer is None,
    ensures
        server.after(first).answer == Some(resolved(first)),
        server.after(first).after(second) == server.after(first),
{
}

/// An error parameter never yields a code, whatever else the query holds.
pub proof fn law_an_error_goes_first(q: CallbackQuery)
    requires
        q.error is Some,
    ensures
        resolved(q) is Err,
{
}

/// The issuer of a callback reaches the waiting side as it was sent, and is
/// not made up where it was not sent.
pub proof fn law_the_issuer_is_kept(server: CallbackServerView, q: CallbackQuery, secs: u64)
    requires
        server.answer is None,
        resolved(q) is Ok,
    ensures
        server.after(q).outcome(false, secs) matches Ok(code) && code.iss == text::opt_text(q.iss),
{
}

/// A callback with a code and a state, and without an error, hands over that
/// code, that state, and the issuer if one was sent. Whoever waits gets them,
/// whatever is called after the first such callback.
pub proof fn law_code_and_state_are_handed_over(
    server: CallbackServerView,
    q: CallbackQuery,
    later: CallbackQuery,
    code: String,
    state: String,
    secs: u64,
    got: AuthCode,
)
    requires
        server.answer is None,
        q.error is None,
        q.code == Some(code),
        q.state == Some(state),
    ensures
        server.after(q).outcome(false, secs) is Ok,
        server.after(q).after(later).outcome(false, secs) == server.after(q).outcome(false, secs),
        resolved(q) is Ok,
        resolved(q) == Ok::<_, CallbackErrorView>(got@) || server.after(q).outcome(false, secs)
            == Ok::<_, WaitErrorView>(got@) ==> {
            &&& got.code@ == code@
            &&& got.state@ == state@
            &&& got.iss is Some <==> q.iss is Some
            &&& q.iss is Some ==> got.iss->0@ == q.iss->0@
        },
{
}

/// A callback with an error hands over that error with its description, and
/// one that lacks the code or the state is told apart from it.
pub proof fn law_callbacks_without_a_code_are_told_apart(
    server: CallbackServerView,
    q: CallbackQuery,
    secs: u64,
    got: CallbackError,
)
    requires
        server.answer is None,
        q.error is Some || q.code is None || q.state is None,
    ensures
        server.after(q).outcome(false, secs) matches Err(WaitErrorView::Callback(_)),
        resolved(q) is Err,
        resolved(q) == Err::<AuthCodeView, _>(got@) || server.after(q).outcome(false, secs)
            == Err::<AuthCodeView, _>(WaitErrorView::Callback(got@)) ==> match got {
            CallbackError::AuthServer { error, description } => {
                &&& q.error is Some && error@ == q.error->0@
                &&& description is Some <==> q.error_description is Some
                &&& description is Some ==> description->0@ == q.error_description->0@
            },
            CallbackError::MissingCode => q.error is None,
        },
{
}

/// Waiting fails with the time that was granted where that ran out, whatever
/// came afterwards, and otherwise only where no callback came or the callback
/// brought no code.
pub proof fn law_waiting_ends_in_one_of_three_ways(server: CallbackServerView, secs: u64)
    ensures
        server.outcome(true, secs) matches Err(WaitErrorView::TimedOut { secs: s }) && s == secs,
        server.answer is None ==> server.outcome(false, secs) matches Err(WaitErrorView::Dropped),
        server.answer matches Some(Ok(code)) ==> server.outcome(false, secs) == Ok::<
            _,
            WaitErrorView,
        >(code),
        server.answer matches Some(Err(e)) ==> server.outcome(false, secs) == Err::<
            AuthCodeView,
            _,
        >(WaitErrorView::Callback(e)),
{
}

/// A callback changes nothing but the answer.
pub proof fn law_the_redirect_uri_stays(server: CallbackServerView, q: CallbackQuery)
    ensures
        server.after(q).redirect_uri == server.redirect_uri,
{
}

/// What is held is what is seen.
pub proof fn law_codes_and_answers_are_seen_whole(
    code: AuthCode,
    server: CallbackServer,
    error: CallbackError,
    wait: WaitError,
)
    ensures
        code@.code == code.code@,
        code@.state == code.state@,
        code@.iss is Some <==> code.iss is Some,
        code.iss is Some ==> code@.iss->0 == code.iss->0@,
        server@.redirect_uri == server.redirect_uri@,
        server@.answer is Some <==> server.answer is Some,
        server.answer matches Some(Ok(c)) ==> server@.answer == Some(
            Ok::<AuthCodeView, CallbackErrorView>(c@),
        ),
        server.answer matches Some(Err(e)) ==> server@.answer == Some(
            Err::<AuthCodeView, CallbackErrorView>(e@),
        ),
        error is MissingCode <==> error@ is MissingCode,
        error matches CallbackError::AuthServer { error: e, description: d } ==> error@->error
            == e@ && error@->description == text::opt_text(d),
        match wait {
            WaitError::Callback(e) => wait@ is Callback && wait@->Callback_0 == e@,
            WaitError::Dropped => wait@ is Dropped,
            WaitError::TimedOut { secs } => wait@ is TimedOut && wait@->secs == secs,
        },
{
}

/// What the user is told names what came and where it came from.
pub proof fn law_messages_say_what_happened(
    error: Seq<char>,
    description: Seq<char>,
    secs: u64,
    host: Seq<char>,
    addr: Seq<char>,
    cause: Seq<char>,
)
    ensures
        ({
            let bare = CallbackErrorView::AuthServer { error, description: None };
            let full = CallbackErrorView::AuthServer { error, description: Some(description) };
            let missing = CallbackErrorView::MissingCode;
            let late = WaitErrorView::TimedOut { secs };
            let invalid = BindErrorView::InvalidHost { host, cause };
            let public = BindErrorView::NotLoopback { host };
            let taken = BindErrorView::Unavailable { addr, cause };
            &&& bare.message() == "authorization server returned error: "@ + error
            &&& full.message() == bare.message() + " ("@ + description + ")"@
            &&& missing.message() == "callback did not include an authorization code"@
            &&& WaitErrorView::Callback(bare).message() == bare.message()
            &&& WaitErrorView::Callback(full).message() == full.message()
            &&& WaitErrorView::Callback(missing).message() == missing.message()
            &&& WaitErrorView::Dropped.message()
                == "OAuth callback channel dropped before receiving a code"@
            &&& late.message() == "timed out after "@ + number::decimal(secs as nat)
                + "s waiting for OAuth callback; the user did not complete the authorization flow"@
            &&& invalid.message() == "invalid callback host '"@ + host + "': "@ + cause
            &&& public.message() == "refusing to bind OAuth callback server to '"@ + host
                + "': not a loopback address"@
            &&& taken.message() == "failed to bind OAuth callback server to "@ + addr + ": "@
                + cause
        }),
{
    let bare = CallbackErrorView::AuthServer { error, description: None };
    let full = CallbackErrorView::AuthServer { error, description: Some(description) };
    assert(bare.message() =~= "authorization server returned error: "@ + error);
    assert(full.message() =~= bare.message() + " ("@ + description + ")"@);
}

/// Errors of starting the callback server are seen with all that they hold.
pub proof fn law_bind_errors_are_seen_whole(error: BindError)
    ensures
        match error {
            BindError::InvalidHost { host, cause } => error@ is InvalidHost
                && error@->InvalidHost_host == host@ && error@->InvalidHost_cause == cause@,
            BindError::NotLoopback { host } => error@ is NotLoopback && error@->NotLoopback_host
                == host@,
            BindError::Unavailable { addr, cause } => error@ is Unavailable && error@->addr
                == addr@ && error@->Unavailable_cause == cause@,
        },
{
}

} // verus!
