//! Bidirectional MCP proxy between a local stdio client and a remote
//! Streamable-HTTP MCP server.
//!
//! The local client is answered by a [`ProxyHandler`], which connects to the
//! remote on the first `initialize` and forwards everything after that. The
//! local client sees the capabilities of the remote, and the remote those of
//! the local client; only the names tell that a proxy sits in between.
//! Carrying messages is left to the caller; this module decides what is
//! forwarded, refused, renamed and pinged.

use core::time::Duration;

use vstd::prelude::*;
use vstd::string::*;

use crate::filter::{FilterView, ToolFilter};

verus! {

// ---------------------------------------------------------------------------
// Keepalive
// ---------------------------------------------------------------------------

/// The length of a duration in nanoseconds, as `Duration::as_nanos` gives it.
pub uninterp spec fn nanos(d: Duration) -> nat;

/// `Duration::from_secs`. Claims that the duration is that many seconds long.
pub assume_specification[ Duration::from_secs ](secs: u64) -> (r: Duration)
    ensures
        nanos(r) == secs as nat * 1_000_000_000,
;

/// How often to send MCP `ping` requests to the remote server.
///
/// Load balancers, NAT devices and idle timeouts silently drop a session
/// after a few quiet minutes. A periodic ping keeps it warm, and tells early
/// when the remote becomes unreachable.
#[derive(Debug, Clone, Copy)]
pub struct KeepaliveConfig {
    /// Time between consecutive pings. `None` disables them.
    pub interval: Option<Duration>,
    /// Maximum time to wait for any individual ping. The connection is not
    /// torn down on timeout.
    pub timeout: Duration,
}

/// The length of `secs` seconds in nanoseconds.
pub open spec fn seconds(secs: nat) -> nat {
    secs * 1_000_000_000
}

impl KeepaliveConfig {
    /// A config from seconds. An interval of zero disables pings, and the
    /// timeout is one second at least.
    pub fn from_secs(interval_secs: u64, timeout_secs: u64) -> (r: KeepaliveConfig)
        ensures
            r.interval is None <==> interval_secs == 0,
            r.interval matches Some(interval) ==> nanos(interval) == seconds(interval_secs as nat),
            nanos(r.timeout) == if timeout_secs == 0 {
                seconds(1)
            } else {
                seconds(timeout_secs as nat)
            },
    {
        let interval: Option<Duration> = if interval_secs > 0 {
            Some(Duration::from_secs(interval_secs))
        } else {
            None
        };
        let timeout_secs: u64 = if timeout_secs == 0 {
            1
        } else {
            timeout_secs
        };
        KeepaliveConfig { interval, timeout: Duration::from_secs(timeout_secs) }
    }

    /// No pings.
    pub fn disabled() -> (r: KeepaliveConfig)
        ensures
            r.interval is None,
            nanos(r.timeout) == seconds(10),
    {
        KeepaliveConfig { interval: None, timeout: Duration::from_secs(10) }
    }
}

/// What the keepalive task is woken by.
#[derive(Debug, Clone, Copy, PartialEq, Eq, Structural)]
pub enum KeepaliveEvent {
    /// The interval is over.
    Tick,
    /// The session has ended.
    Cancelled,
}

/// What the keepalive task is to do.
#[derive(Debug, Clone, Copy, PartialEq, Eq, Structural)]
pub enum KeepaliveAction {
    /// Wait for the next event.
    Wait,
    /// Send a ping, then wait for the next event.
    Ping,
    /// End.
    Stop,
}

/// The keepalive task of one session.
#[derive(Debug, PartialEq, Eq)]
pub struct Pinger {
    /// Has the first tick been seen? It comes at once, and a ping then would
    /// race the handshake that was just completed.
    pub primed: bool,
}

impl Pinger {
    /// The task for a session; `None` where pings are disabled.
    pub fn spawn(config: &KeepaliveConfig) -> (r: Option<Pinger>)
        ensures
            r is Some <==> config.interval is Some,
            r matches Some(p) ==> !p.primed,
    {
        match config.interval {
            Some(_) => Some(Pinger { primed: false }),
            None => None,
        }
    }

    /// What to do on an event. What came of earlier pings does not matter:
    /// the transport decides whether the session is alive.
    pub fn on(&mut self, event: KeepaliveEvent) -> (r: KeepaliveAction)
        ensures
            r == (match event {
                KeepaliveEvent::Cancelled => KeepaliveAction::Stop,
                KeepaliveEvent::Tick => if old(self).primed {
                    KeepaliveAction::Ping
                } else {
                    KeepaliveAction::Wait
                },
            }),
            final(self).primed == (old(self).primed || event is Tick),
    {
        match event {
            KeepaliveEvent::Cancelled => KeepaliveAction::Stop,
            KeepaliveEvent::Tick => if self.primed {
                KeepaliveAction::Ping
            } else {
                self.primed = true;
                KeepaliveAction::Wait
            },
        }
    }
}

// ---------------------------------------------------------------------------
// Errors
// ---------------------------------------------------------------------------

/// The JSON-RPC code of an internal error.
pub const INTERNAL_ERROR: i32 = -32603;

/// An error that a request is answered with.
#[derive(Debug, Clone, PartialEq, Eq)]
pub struct ErrorData {
    pub code: i32,
    pub message: String,
}

/// An error of the proxy itself.
pub fn internal_error(msg: &str) -> (r: ErrorData)
    ensures
        r.code == INTERNAL_ERROR,
        r.message@ == msg@,
{
    ErrorData { code: INTERNAL_ERROR, message: msg.to_string() }
}

/// An error of the remote server.
pub fn remote_error(cause: &str) -> (r: ErrorData)
    ensures
        r.code == INTERNAL_ERROR,
        r.message@ == "remote MCP server error: "@ + cause@,
{
    let mut message: String = "remote MCP server error: ".to_string();
    message.append(cause);
    ErrorData { code: INTERNAL_ERROR, message }
}

/// An error of the local client.
pub fn upstream_error(cause: &str) -> (r: ErrorData)
    ensures
        r.code == INTERNAL_ERROR,
        r.message@ == "local stdio client error: "@ + cause@,
{
    let mut message: String = "local stdio client error: ".to_string();
    message.append(cause);
    ErrorData { code: INTERNAL_ERROR, message }
}

// ---------------------------------------------------------------------------
// Introductions
// ---------------------------------------------------------------------------

/// How the proxy calls itself.
pub const PROXY_NAME: &'static str = "hyper-mcp-remote";

/// How a client introduces itself. `P` is its protocol version and `C` its
/// capabilities.
#[derive(Debug, PartialEq, Eq)]
pub struct ClientInfo<P, C> {
    pub name: String,
    pub version: String,
    pub protocol_version: P,
    pub capabilities: C,
}

/// The name of a client, with the proxy it is seen through.
pub open spec fn proxied_name(name: Seq<char>, proxy_version: Seq<char>) -> Seq<char> {
    name + " (via hyper-mcp-remote "@ + proxy_version + ")"@
}

/// How the proxy introduces itself to the remote: as the local client, with
/// the proxy added to its name. Protocol version and capabilities are those
/// of the client, so that the remote asks for sampling, elicitation and roots
/// if and only if the client supports them.
pub fn build_proxied_client_info<P, C>(
    local: ClientInfo<P, C>,
    proxy_version: &str,
) -> (r: ClientInfo<P, C>)
    ensures
        r.name@ == proxied_name(local.name@, proxy_version@),
        r.version == local.version,
        r.protocol_version == local.protocol_version,
        r.capabilities == local.capabilities,
{
    let mut name: String = local.name;
    name.append(" (via hyper-mcp-remote ");
    name.append(proxy_version);
    name.append(")");
    ClientInfo {
        name,
        version: local.version,
        protocol_version: local.protocol_version,
        capabilities: local.capabilities,
    }
}

/// How a server introduces itself. `R` is everything but its name and
/// version.
#[derive(Debug, PartialEq, Eq)]
pub struct ServerInfo<R> {
    pub name: String,
    pub version: String,
    pub rest: R,
}

/// How the proxy introduces itself to the local client: as the remote, under
/// its own name and version. `fallback` stands in for a remote that did not
/// introduce itself.
pub fn reflect<R>(remote: Option<ServerInfo<R>>, fallback: R, proxy_version: &str) -> (r: ServerInfo<
    R,
>)
    ensures
        r.name@ == PROXY_NAME@,
        r.version@ == proxy_version@,
        r.rest == (match remote {
            Some(info) => info.rest,
            None => fallback,
        }),
{
    ServerInfo {
        name: PROXY_NAME.to_string(),
        version: proxy_version.to_string(),
        rest: match remote {
            Some(info) => info.rest,
            None => fallback,
        },
    }
}

/// The `User-Agent` that the proxy sends.
pub fn user_agent(proxy_version: &str) -> (r: String)
    ensures
        r@ == "hyper-mcp-remote/"@ + proxy_version@
            + " (+https://github.com/hyper-mcp-rs/hyper-mcp-remote)"@,
{
    let mut out: String = "hyper-mcp-remote/".to_string();
    out.append(proxy_version);
    out.append(" (+https://github.com/hyper-mcp-rs/hyper-mcp-remote)");
    out
}

// ---------------------------------------------------------------------------
// The handler
// ---------------------------------------------------------------------------

/// A tool that the remote offers. `D` is everything but its name.
#[derive(Debug, PartialEq, Eq)]
pub struct Tool<D> {
    pub name: String,
    pub details: D,
}

/// The tools of `tools` that a filter lets through, in their order.
pub open spec fn kept<D>(tools: Seq<Tool<D>>, filter: FilterView) -> Seq<Tool<D>>
    decreases tools.len(),
{
    if tools.len() == 0 {
        seq![]
    } else if filter.permits(tools.last().name@) {
        kept(tools.drop_last(), filter).push(tools.last())
    } else {
        kept(tools.drop_last(), filter)
    }
}

/// The state behind the local stdio connection. `T` is a transport to the
/// remote that was not opened yet, and `R` an open connection to it.
pub struct ProxyHandler<T, R> {
    /// The transport, until it is used.
    pub transport: Option<T>,
    /// The connection, once it stands.
    pub remote: Option<R>,
    /// How the connection is kept alive.
    pub keepalive: KeepaliveConfig,
    /// Which tools are forwarded.
    pub tool_filter: ToolFilter,
}

/// What an `initialize` of the local client leads to.
#[derive(Debug)]
pub enum Connect<T> {
    /// The connection stands already.
    Ready,
    /// This transport is to be opened; [`ProxyHandler::connected`] is told
    /// once the connection stands.
    Open(T),
    /// There is no way to the remote any more.
    Refused(ErrorData),
}

/// Is `r` what an `initialize` leads to in the state `before`, and `after` the
/// state that it leaves behind?
pub open spec fn connect_leads<T, R>(
    before: ProxyHandler<T, R>,
    after: ProxyHandler<T, R>,
    r: Connect<T>,
) -> bool {
    &&& after.remote == before.remote
    &&& after.keepalive == before.keepalive
    &&& after.tool_filter == before.tool_filter
    &&& if before.remote is Some {
        r is Ready && after.transport == before.transport
    } else {
        &&& after.transport is None
        &&& match before.transport {
            Some(t) => r == Connect::Open(t),
            None => r matches Connect::Refused(e) && e.code == INTERNAL_ERROR && e.message@
                == "remote transport already consumed"@,
        }
    }
}

impl<T, R> ProxyHandler<T, R> {
    /// The state before anything was opened.
    pub fn new(transport: T, keepalive: KeepaliveConfig, tool_filter: ToolFilter) -> (r:
        ProxyHandler<T, R>)
        ensures
            r.transport == Some(transport),
            r.remote is None,
            r.keepalive == keepalive,
            r.tool_filter == tool_filter,
    {
        ProxyHandler { transport: Some(transport), remote: None, keepalive, tool_filter }
    }

    /// The connection to the remote; an error until `initialize` has
    /// completed.
    pub fn peer(&self) -> (r: Result<&R, ErrorData>)
        ensures
            match r {
                Ok(remote) => self.remote == Some(*remote),
                Err(e) => self.remote is None && e.code == INTERNAL_ERROR && e.message@
                    == "proxy session not yet initialized"@,
            },
    {
        match &self.remote {
            Some(remote) => Ok(remote),
            None => Err(internal_error("proxy session not yet initialized")),
        }
    }

    /// What an `initialize` of the local client leads to. The transport can
    /// be opened once: where that failed there is no second try.
    pub fn connect(&mut self) -> (r: Connect<T>)
        ensures
            connect_leads(*old(self), *final(self), r),
    {
        if self.remote.is_some() {
            return Connect::Ready;
        }
        match self.transport.take() {
            Some(transport) => Connect::Open(transport),
            None => Connect::Refused(internal_error("remote transport already consumed")),
        }
    }

    /// Takes note of the connection that was opened.
    pub fn connected(&mut self, remote: R)
        requires
            old(self).remote is None,
        ensures
            final(self).remote == Some(remote),
            final(self).transport == old(self).transport,
            final(self).keepalive == old(self).keepalive,
            final(self).tool_filter == old(self).tool_filter,
    {
        self.remote = Some(remote);
    }

    /// The tools that the local client gets to see, of those that the remote
    /// listed.
    pub fn list_tools<D>(&self, tools: Vec<Tool<D>>) -> (out: Vec<Tool<D>>)
        ensures
            out@ == kept(tools@, self.tool_filter@),
    {
        let ghost all = tools@;
        if self.tool_filter.is_noop() {
            proof {
                law_no_filter_shows_everything(all, self.tool_filter@);
            }
            return tools;
        }
        let mut rest: Vec<Tool<D>> = tools;
        let mut out: Vec<Tool<D>> = Vec::new();
        assert(kept(all, self.tool_filter@) + Seq::<Tool<D>>::empty() =~= kept(
            all,
            self.tool_filter@,
        ));
        while rest.len() > 0
            invariant
                kept(rest@, self.tool_filter@) + out@.reverse() == kept(all, self.tool_filter@),
            decreases rest.len(),
        {
            let ghost before = rest@;
            let ghost out_before = out@;
            match rest.pop() {
                Some(tool) => {
                    assert(rest@ == before.drop_last());
                    if self.tool_filter.permits(tool.name.as_str()) {
                        out.push(tool);
                        assert(out@.reverse() =~= seq![tool] + out_before.reverse());
                        assert(kept(rest@, self.tool_filter@) + out@.reverse() =~= kept(
                            before,
                            self.tool_filter@,
                        ) + out_before.reverse());
                    }
                },
                None => {},
            }
        }
        assert(kept(rest@, self.tool_filter@) =~= seq![]);
        reversed(out)
    }

    /// May the local client call the tool `name`? An error where the filter
    /// does not let it through, or where there is no connection.
    pub fn call_tool(&self, name: &str) -> (r: Result<&R, ErrorData>)
        ensures
            match r {
                Ok(remote) => self.tool_filter@.permits(name@) && self.remote == Some(*remote),
                Err(e) => e.code == INTERNAL_ERROR && if !self.tool_filter@.permits(name@) {
                    e.message@ == "tool '"@ + name@ + "' is blocked by the tool filter"@
                } else {
                    self.remote is None && e.message@ == "proxy session not yet initialized"@
                },
            },
    {
        if !self.tool_filter.permits(name) {
            let mut message: String = "tool '".to_string();
            message.append(name);
            message.append("' is blocked by the tool filter");
            return Err(ErrorData { code: INTERNAL_ERROR, message });
        }
        self.peer()
    }
}

/// `v` from back to front.
fn reversed<A>(v: Vec<A>) -> (out: Vec<A>)
    ensures
        out@ == v@.reverse(),
{
    let mut rest: Vec<A> = v;
    let mut out: Vec<A> = Vec::new();
    while rest.len() > 0
        invariant
            out@ + rest@.reverse() == v@.reverse(),
        decreases rest.len(),
    {
        let ghost before = rest@;
        let ghost out_before = out@;
        match rest.pop() {
            Some(a) => {
                out.push(a);
                assert(before.reverse() =~= seq![a] + rest@.reverse());
                assert(out@ + rest@.reverse() =~= out_before + before.reverse());
            },
            None => {},
        }
    }
    assert(rest@.reverse() =~= seq![]);
    assert(out@ + Seq::<A>::empty() =~= out@);
    out
}

// ---------------------------------------------------------------------------
// Laws
// ---------------------------------------------------------------------------

/// A tool is shown if and only if the remote lists it and it may be called:
/// listing and calling enforce the same filter.
pub proof fn law_shown_tools_are_the_callable_ones<D>(
    tools: Seq<Tool<D>>,
    filter: FilterView,
    tool: Tool<D>,
)
    ensures
        kept(tools, filter).contains(tool) <==> tools.contains(tool) && filter.permits(tool.name@),
    decreases tools.len(),
{
    if tools.len() > 0 {
        let rest = tools.drop_last();
        law_shown_tools_are_the_callable_ones(rest, filter, tool);
        assert(tools =~= rest.push(tools.last()));
        assert(tools.contains(tool) <==> rest.contains(tool) || tool == tools.last()) by {
            if rest.contains(tool) {
                let i = choose|i: int| 0 <= i < rest.len() && rest[i] == tool;
                assert(tools[i] == tool);
            }
            if tool == tools.last() {
                assert(tools[tools.len() - 1] == tool);
            }
        }
        if filter.permits(tools.last().name@) {
            let k = kept(rest, filter);
            assert(k.push(tools.last()).contains(tool) <==> k.contains(tool) || tool
                == tools.last()) by {
                if k.contains(tool) {
                    let i = choose|i: int| 0 <= i < k.len() && k[i] == tool;
                    assert(k.push(tools.last())[i] == tool);
                }
                if tool == tools.last() {
                    assert(k.push(tools.last())[k.len() as int] == tool);
                }
            }
        }
    }
}

/// Without any filter flag the list of the remote is shown as it is.
pub proof fn law_no_filter_shows_everything<D>(tools: Seq<Tool<D>>, filter: FilterView)
    requires
        filter.is_noop(),
    ensures
        kept(tools, filter) == tools,
    decreases tools.len(),
{
    if tools.len() > 0 {
        crate::filter::law_noop_permits(filter, tools.last().name@);
        law_no_filter_shows_everything(tools.drop_last(), filter);
        assert(tools.drop_last().push(tools.last()) =~= tools);
    }
}

/// The transport is handed out once: an `initialize` that comes before the
/// connection stands, or after it could not be opened, is refused.
pub proof fn law_the_transport_is_used_once<T, R>(
    first: ProxyHandler<T, R>,
    second: ProxyHandler<T, R>,
    third: ProxyHandler<T, R>,
    r1: Connect<T>,
    r2: Connect<T>,
)
    requires
        connect_leads(first, second, r1),
        r1 is Open,
        connect_leads(second, third, r2),
    ensures
        r2 is Refused,
{
}

/// Once the connection stands, every further `initialize` finds it.
pub proof fn law_the_connection_is_kept<T, R>(
    first: ProxyHandler<T, R>,
    second: ProxyHandler<T, R>,
    r: Connect<T>,
)
    requires
        first.remote is Some,
        connect_leads(first, second, r),
    ensures
        r is Ready,
        second == first,
{
}

/// A list of tools is filtered tool by tool, in its order.
pub proof fn law_tools_are_filtered_one_by_one<D>(
    tools: Seq<Tool<D>>,
    more: Seq<Tool<D>>,
    tool: Tool<D>,
    filter: FilterView,
)
    ensures
        kept(tools + more, filter) == kept(tools, filter) + kept(more, filter),
        kept(seq![tool], filter) == if filter.permits(tool.name@) {
            seq![tool]
        } else {
            Seq::<Tool<D>>::empty()
        },
    decreases more.len(),
{
    reveal_with_fuel(kept, 2);
    assert(seq![tool].drop_last() =~= seq![]);
    assert(kept(seq![tool], filter) =~= if filter.permits(tool.name@) {
        seq![tool]
    } else {
        Seq::<Tool<D>>::empty()
    });
    if more.len() == 0 {
        assert(tools + more =~= tools);
        assert(kept(tools, filter) + kept(more, filter) =~= kept(tools, filter));
    } else {
        law_tools_are_filtered_one_by_one(tools, more.drop_last(), tool, filter);
        assert((tools + more).drop_last() =~= tools + more.drop_last());
        assert((tools + more).last() == more.last());
        assert(kept(tools + more, filter) =~= kept(tools, filter) + kept(more, filter));
    }
}

/// The first `initialize` opens the transport that was given, and leaves the
/// rest as it is; without a connection and without a transport it is refused.
pub proof fn law_what_initialize_leads_to<T, R>(
    before: ProxyHandler<T, R>,
    after: ProxyHandler<T, R>,
    r: Connect<T>,
)
    requires
        connect_leads(before, after, r),
        before.remote is None,
    ensures
        after.remote is None,
        after.transport is None,
        after.keepalive == before.keepalive,
        after.tool_filter == before.tool_filter,
        before.transport matches Some(t) ==> r == Connect::Open(t),
        before.transport is None ==> (r matches Connect::Refused(e) && e.code == -32603
            && e.message@ == "remote transport already consumed"@),
{
}

/// The remote sees the name of the local client, then that of the proxy with
/// its version.
pub proof fn law_the_remote_sees_both_names(name: Seq<char>, version: Seq<char>)
    ensures
        proxied_name(name, version) == name + " (via hyper-mcp-remote "@ + version + ")"@,
        name.is_prefix_of(proxied_name(name, version)),
{
    assert(proxied_name(name, version).subrange(0, name.len() as int) =~= name);
}

} // verus!
