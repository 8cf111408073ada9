use std::time::Duration;

use hyper_mcp_remote::filter::ToolFilter;
use hyper_mcp_remote::proxy::{
    build_proxied_client_info, internal_error, reflect, remote_error, upstream_error, user_agent,
    ClientInfo, Connect, KeepaliveAction, KeepaliveConfig, KeepaliveEvent, Pinger, ProxyHandler,
    ServerInfo, Tool, INTERNAL_ERROR,
};

#[test]
fn proxied_client_info_preserves_capabilities_and_tags_name() {
    let input = ClientInfo {
        name: "Test Client".to_string(),
        version: "9.9.9".to_string(),
        protocol_version: "2025-06-18",
        capabilities: vec!["sampling", "roots"],
    };
    let out = build_proxied_client_info(input, "0.1.0");
    assert_eq!(out.version, "9.9.9");
    assert!(
        out.name.starts_with("Test Client"),
        "name should keep the original prefix; got {:?}",
        out.name
    );
    assert!(
        out.name.contains("hyper-mcp-remote"),
        "name should be suffixed with proxy identity; got {:?}",
        out.name
    );
    assert_eq!(out.name, "Test Client (via hyper-mcp-remote 0.1.0)");
    assert_eq!(
        out.capabilities,
        vec!["sampling", "roots"],
        "client capabilities must be forwarded verbatim"
    );
    assert_eq!(out.protocol_version, "2025-06-18");
}

#[test]
fn helper_error_codes_are_internal_error() {
    assert_eq!(internal_error("x").code, INTERNAL_ERROR);
    assert_eq!(remote_error("y").code, INTERNAL_ERROR);
    assert_eq!(upstream_error("z").code, INTERNAL_ERROR);
    assert_eq!(INTERNAL_ERROR, rmcp::model::ErrorCode::INTERNAL_ERROR.0);
}

#[test]
fn remote_and_upstream_have_distinct_prefixes() {
    assert!(remote_error("boom").message.contains("remote MCP server"));
    assert!(upstream_error("boom").message.contains("local stdio client"));
    assert_eq!(remote_error("boom").message, "remote MCP server error: boom");
    assert_eq!(upstream_error("boom").message, "local stdio client error: boom");
    assert_eq!(internal_error("boom").message, "boom");
}

#[test]
fn keepalive_config_from_secs_disables_when_interval_is_zero() {
    let cfg = KeepaliveConfig::from_secs(0, 10);
    assert!(
        cfg.interval.is_none(),
        "interval 0 must map to disabled keepalive"
    );
}

#[test]
fn keepalive_config_from_secs_uses_provided_values() {
    let cfg = KeepaliveConfig::from_secs(30, 7);
    assert_eq!(cfg.interval, Some(Duration::from_secs(30)));
    assert_eq!(cfg.timeout, Duration::from_secs(7));
}

#[test]
fn keepalive_config_from_secs_clamps_zero_timeout_to_one() {
    let cfg = KeepaliveConfig::from_secs(30, 0);
    assert_eq!(cfg.timeout, Duration::from_secs(1));
}

#[test]
fn keepalive_disabled_returns_no_task() {
    let cfg = KeepaliveConfig::disabled();
    assert!(cfg.interval.is_none());
    assert_eq!(cfg.timeout, Duration::from_secs(10));
    assert!(Pinger::spawn(&cfg).is_none());
}

#[test]
fn the_first_tick_is_skipped_and_cancellation_stops() {
    let mut pinger = Pinger::spawn(&KeepaliveConfig::from_secs(60, 10)).expect("pinger");
    assert_eq!(pinger.on(KeepaliveEvent::Tick), KeepaliveAction::Wait);
    assert_eq!(pinger.on(KeepaliveEvent::Tick), KeepaliveAction::Ping);
    assert_eq!(pinger.on(KeepaliveEvent::Tick), KeepaliveAction::Ping);
    assert_eq!(pinger.on(KeepaliveEvent::Cancelled), KeepaliveAction::Stop);
}

#[test]
fn the_server_is_reflected_under_the_name_of_the_proxy() {
    let remote = ServerInfo {
        name: "remote".to_string(),
        version: "3".to_string(),
        rest: "tools",
    };
    let shown = reflect(Some(remote), "nothing", "0.1.0");
    assert_eq!(shown.name, "hyper-mcp-remote");
    assert_eq!(shown.version, "0.1.0");
    assert_eq!(shown.rest, "tools");
    assert_eq!(reflect(None, "nothing", "0.1.0").rest, "nothing");
}

#[test]
fn the_user_agent_names_version_and_home() {
    assert_eq!(
        user_agent("1.2.3"),
        "hyper-mcp-remote/1.2.3 (+https://github.com/hyper-mcp-rs/hyper-mcp-remote)"
    );
}

fn handler(deny: &[&str]) -> ProxyHandler<u8, &'static str> {
    let deny: Vec<String> = deny.iter().map(|s| s.to_string()).collect();
    let filter = ToolFilter::from_cli(&[], &deny).expect("filter");
    ProxyHandler::new(1, KeepaliveConfig::from_secs(60, 10), filter)
}

fn tools(names: &[&str]) -> Vec<Tool<usize>> {
    names
        .iter()
        .enumerate()
        .map(|(i, n)| Tool { name: n.to_string(), details: i })
        .collect()
}

#[test]
fn the_transport_is_used_once() {
    let mut h = handler(&[]);
    assert_eq!(
        h.peer().expect_err("not connected").message,
        "proxy session not yet initialized"
    );
    assert!(matches!(h.connect(), Connect::Open(1)));
    match h.connect() {
        Connect::Refused(e) => assert_eq!(e.message, "remote transport already consumed"),
        other => panic!("{other:?}"),
    }
    h.connected("peer");
    assert!(matches!(h.connect(), Connect::Ready));
    assert_eq!(h.peer().expect("connected"), &"peer");
}

#[test]
fn listing_and_calling_enforce_the_same_filter() {
    let mut h = handler(&["drop_*"]);
    h.connected("peer");
    let listed = h.list_tools(tools(&["a", "drop_x", "b", "drop_y", "c"]));
    let names: Vec<&str> = listed.iter().map(|t| t.name.as_str()).collect();
    assert_eq!(names, vec!["a", "b", "c"]);
    assert_eq!(listed[2].details, 4);
    assert!(h.call_tool("a").is_ok());
    let err = h.call_tool("drop_x").expect_err("blocked");
    assert_eq!(err.code, INTERNAL_ERROR);
    assert_eq!(err.message, "tool 'drop_x' is blocked by the tool filter");
}

#[test]
fn without_a_filter_everything_is_listed() {
    let h = handler(&[]);
    assert_eq!(h.list_tools(tools(&["a", "b"])), tools(&["a", "b"]));
    assert_eq!(
        h.call_tool("a").expect_err("not connected").message,
        "proxy session not yet initialized"
    );
}
