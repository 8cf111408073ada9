use hyper_mcp_remote::auth::cache::{
    cached_access_token_is_stale, CachedCredentials, TokenResponse, REFRESH_BUFFER_SECS,
};
use hyper_mcp_remote::auth::callback::AuthCode;
use hyper_mcp_remote::auth::discovery::{AuthRequirement, OAuthDiscovery};
use hyper_mcp_remote::auth::flow::{
    acquire_auth_client, client_source, effective_scopes, Action, Client, ClientSource, Event,
    Flow, FlowEnd, Step,
};
use hyper_mcp_remote::cli::Cli;
use hyper_mcp_remote::weburl::Url;

const NOW: u64 = 1_700_000_000;

fn cli() -> Cli {
    Cli { server_url: "https://example.com/mcp".to_string(), ..Cli::default() }
}

fn discovery_with(scopes: &[&str]) -> OAuthDiscovery {
    OAuthDiscovery {
        authorization_server: "https://auth.example.com".to_string(),
        scopes: scopes.iter().map(|s| s.to_string()).collect(),
        resource: Url::parse("https://example.com/mcp").expect("URL"),
    }
}

fn scoped(scope: &str) -> Cli {
    Cli { scope: Some(scope.to_string()), ..cli() }
}

#[test]
fn effective_scopes_uses_cli_override_when_set() {
    assert_eq!(
        effective_scopes(&scoped("read,write"), &discovery_with(&["discovered"])),
        vec!["read".to_string(), "write".to_string()],
        "CLI --scope must take precedence over discovery"
    );
}

#[test]
fn effective_scopes_falls_back_to_discovery() {
    assert_eq!(
        effective_scopes(&cli(), &discovery_with(&["a", "b", "c"])),
        vec!["a".to_string(), "b".to_string(), "c".to_string()],
    );
}

#[test]
fn effective_scopes_handles_mixed_whitespace_and_commas() {
    assert_eq!(
        effective_scopes(&scoped("  read , write\tadmin"), &discovery_with(&[])),
        vec!["read".to_string(), "write".to_string(), "admin".to_string()],
    );
}

#[test]
fn effective_scopes_empty_cli_returns_empty() {
    let scopes = effective_scopes(&scoped(" , , "), &discovery_with(&["unused"]));
    assert!(
        scopes.is_empty(),
        "CLI override of all-whitespace must produce empty list, got {scopes:?}"
    );
}

fn sample_stored(token_received_at: Option<u64>, expires_in: Option<u64>) -> CachedCredentials {
    CachedCredentials {
        client_id: "client-abc".to_string(),
        token_response: Some(TokenResponse { expires_in }),
        token_received_at,
    }
}

#[test]
fn stale_when_received_long_ago_with_short_expiry() {
    let stored = sample_stored(Some(NOW - 7200), Some(3600));
    assert!(
        cached_access_token_is_stale(&stored, NOW),
        "a 1h token received 2h ago must be flagged stale"
    );
}

#[test]
fn stale_when_within_refresh_buffer() {
    let stored = sample_stored(Some(NOW - (3600 - (REFRESH_BUFFER_SECS - 1))), Some(3600));
    assert!(
        cached_access_token_is_stale(&stored, NOW),
        "token within REFRESH_BUFFER_SECS of expiry must be flagged stale"
    );
    let stored = sample_stored(Some(NOW - (3600 - REFRESH_BUFFER_SECS)), Some(3600));
    assert!(!cached_access_token_is_stale(&stored, NOW));
}

#[test]
fn fresh_when_well_inside_validity_window() {
    let stored = sample_stored(Some(NOW - 60), Some(3600));
    assert!(
        !cached_access_token_is_stale(&stored, NOW),
        "a 1h token received 1min ago must be fresh"
    );
}

#[test]
fn fresh_when_no_received_at_to_compare_against() {
    assert!(!cached_access_token_is_stale(&sample_stored(None, Some(3600)), NOW));
}

#[test]
fn fresh_when_no_expires_in_to_compare_against() {
    let stored = sample_stored(Some(NOW - 86_400), None);
    assert!(!cached_access_token_is_stale(&stored, NOW));
}

#[test]
fn staleness_at_the_limits() {
    assert!(!cached_access_token_is_stale(&sample_stored(Some(u64::MAX), Some(30)), 0));
    assert!(cached_access_token_is_stale(&sample_stored(Some(u64::MAX), Some(29)), 0));
    assert!(cached_access_token_is_stale(&sample_stored(Some(0), Some(3600)), u64::MAX));
    assert!(!cached_access_token_is_stale(&sample_stored(Some(0), Some(u64::MAX)), 5));
    let tokenless = CachedCredentials { token_response: None, ..sample_stored(Some(0), None) };
    assert!(!cached_access_token_is_stale(&tokenless, u64::MAX));
    assert_eq!(REFRESH_BUFFER_SECS, 30);
}

#[test]
fn a_new_time_of_receipt_hides_staleness() {
    let stored = sample_stored(Some(NOW - 7200), Some(3600));
    assert!(cached_access_token_is_stale(&stored, NOW));
    assert!(cached_access_token_is_stale(&stored, NOW + 1));
    let restamped = CachedCredentials { token_received_at: Some(NOW), ..stored };
    assert!(!cached_access_token_is_stale(&restamped, NOW));
}

/// A stored record, told apart by a number.
type Record = u32;

fn step(flow: Flow<'_, Record>, event: Event<Record>) -> Flow<'_, Record> {
    assert!(flow.step().accepts(&event), "{:?} after {:?}", event, flow.step());
    flow.advance(event)
}

fn failure() -> Event<Record> {
    Event::Failed { cause: "boom".to_string() }
}

fn required(cli: &Cli) -> Flow<'_, Record> {
    let flow: Flow<'_, Record> = acquire_auth_client(cli);
    assert!(matches!(flow.action(), Action::Discover));
    let flow = step(
        flow,
        Event::Requirement(AuthRequirement::Required(discovery_with(&["a"]))),
    );
    assert!(matches!(flow.action(), Action::Load));
    flow
}

fn applied(cli: &Cli, stored: CachedCredentials) -> Flow<'_, Record> {
    let flow = step(required(cli), Event::Cached(Some((stored, 17))));
    match flow.action() {
        Action::Open { base_url } => assert_eq!(base_url, "https://example.com/mcp"),
        other => panic!("{other:?}"),
    }
    let flow = step(flow, Event::Opened { now: NOW });
    assert!(matches!(flow.action(), Action::Apply(&17)));
    let flow = step(flow, Event::Done);
    assert!(matches!(flow.action(), Action::Restore(&17)));
    flow
}

#[test]
fn acquire_auth_client_returns_anonymous_when_server_does_not_require_oauth() {
    let cli = cli();
    let flow = step(
        acquire_auth_client(&cli),
        Event::Requirement(AuthRequirement::NotRequired),
    );
    assert!(matches!(flow.action(), Action::Finish(FlowEnd::Anonymous)));
}

#[test]
fn acquire_auth_client_short_circuits_on_no_auth_without_touching_network() {
    let cli = Cli {
        server_url: "http://127.0.0.1:1/mcp".to_string(),
        no_auth: true,
        allow_http: true,
        ..Cli::default()
    };
    let flow: Flow<'_, Record> = acquire_auth_client(&cli);
    assert!(
        matches!(flow.action(), Action::Finish(FlowEnd::Anonymous)),
        "--no-auth must yield AuthOutcome::Anonymous"
    );
    assert!(!flow.step().accepts(&Event::<Record>::Done));
    assert!(!flow.step().accepts(&failure()));
}

#[test]
fn reset_clears_also_without_authentication() {
    let cli = Cli { no_auth: true, reset_auth: true, ..cli() };
    let flow = acquire_auth_client(&cli);
    assert!(matches!(flow.action(), Action::Clear));
    let flow = step(flow, Event::Done);
    assert!(matches!(flow.action(), Action::Finish(FlowEnd::Anonymous)));
    let flow = step(acquire_auth_client(&cli), failure());
    assert!(matches!(flow.action(), Action::Finish(FlowEnd::Failed { .. })));
}

#[test]
fn try_cached_credentials_returns_none_on_empty_cache() {
    let cli = cli();
    let flow = step(required(&cli), Event::Cached(None));
    assert_eq!(flow.step(), Step::OpenFresh, "empty cache must signal interactive fallback");
    let tokenless = CachedCredentials { token_response: None, ..sample_stored(None, None) };
    let flow = step(required(&cli), Event::Cached(Some((tokenless, 17))));
    assert_eq!(flow.step(), Step::OpenFresh);
}

#[test]
fn try_cached_credentials_accepts_fresh_cache_and_preserves_timestamp() {
    let cli = cli();
    let received_at = NOW - 60;
    let read = sample_stored(Some(received_at), Some(3600));
    let mut stored = read.clone();
    let flow: Flow<'_, CachedCredentials> = acquire_auth_client(&cli);
    let flow = flow
        .advance(Event::Requirement(AuthRequirement::Required(discovery_with(&[]))))
        .advance(Event::Cached(Some((read.clone(), read.clone()))))
        .advance(Event::Opened { now: NOW });
    match flow.action() {
        // Giving them to the session stamps them with the present time.
        Action::Apply(c) => {
            assert_eq!(c, &read);
            stored.token_received_at = Some(NOW);
        }
        other => panic!("{other:?}"),
    }
    let flow = flow.advance(Event::Done);
    match flow.action() {
        Action::Restore(c) => stored = c.clone(),
        other => panic!("{other:?}"),
    }
    assert_eq!(
        stored.token_received_at,
        Some(received_at),
        "genuine token_received_at must survive set_credentials"
    );
    let flow = flow.advance(Event::Done);
    assert!(matches!(flow.action(), Action::Finish(FlowEnd::Authorized)));
}

#[test]
fn fresh_credentials_are_used_even_if_they_cannot_be_stored_back() {
    let cli = cli();
    let flow = step(applied(&cli, sample_stored(Some(NOW - 60), Some(3600))), failure());
    assert!(matches!(flow.action(), Action::Finish(FlowEnd::Authorized)));
}

#[test]
fn try_cached_credentials_refreshes_stale_cache() {
    let cli = cli();
    let flow = step(applied(&cli, sample_stored(Some(NOW - 7200), Some(3600))), Event::Done);
    assert!(matches!(flow.action(), Action::Refresh));
    let flow = step(flow, Event::Done);
    assert!(matches!(flow.action(), Action::Finish(FlowEnd::Authorized)));
}

#[test]
fn try_cached_credentials_falls_back_and_clears_cache_when_refresh_fails() {
    let cli = cli();
    for cleared in [Event::Done, failure()] {
        let flow = step(applied(&cli, sample_stored(Some(NOW - 7200), Some(3600))), Event::Done);
        let flow = step(flow, failure());
        assert!(matches!(flow.action(), Action::Clear), "cache must be cleared");
        let flow = step(flow, cleared);
        assert_eq!(
            flow.step(),
            Step::OpenFresh,
            "dead refresh token must signal interactive fallback"
        );
    }
}

#[test]
fn reset_forgets_credentials_first() {
    let cli = Cli { reset_auth: true, ..cli() };
    let flow = acquire_auth_client(&cli);
    assert!(matches!(flow.action(), Action::Clear));
    assert!(matches!(step(flow, Event::Done).action(), Action::Discover));
    match step(acquire_auth_client(&cli), failure()).action() {
        Action::Finish(FlowEnd::Failed { message }) => {
            assert_eq!(message, "failed to clear cached credentials: boom");
        }
        other => panic!("{other:?}"),
    }
}

#[test]
fn the_interactive_flow_runs_through() {
    let cli = Cli { callback_port: Some(9099), auth_timeout_secs: 42, ..scoped("x,y") };
    let flow = step(required(&cli), Event::Cached(None));
    let flow = step(flow, Event::Opened { now: NOW });
    match flow.action() {
        Action::Bind { host, port } => {
            assert_eq!(host, "127.0.0.1");
            assert_eq!(port, 9099);
        }
        other => panic!("{other:?}"),
    }
    let flow = step(flow, Event::Bound { redirect_uri: "http://r".to_string() });
    match flow.action() {
        Action::Authorize { scopes, redirect_uri, client } => {
            assert_eq!(scopes, vec!["x", "y"]);
            assert_eq!(redirect_uri, "http://r");
            assert_eq!(client, Client::Register { name: "hyper-mcp-remote".to_string() });
        }
        other => panic!("{other:?}"),
    }
    let flow = step(flow, Event::Done);
    assert!(matches!(flow.action(), Action::BuildUrl));
    let flow = step(flow, Event::Url { url: "https://login".to_string() });
    match flow.action() {
        Action::Show { url } => assert_eq!(url, "https://login"),
        other => panic!("{other:?}"),
    }
    let flow = step(flow, failure());
    match flow.action() {
        Action::Await { timeout_secs } => assert_eq!(timeout_secs, 42),
        other => panic!("{other:?}"),
    }
    let code = AuthCode {
        code: "c".to_string(),
        state: "s".to_string(),
        iss: Some("https://iss".to_string()),
    };
    let flow = step(flow, Event::Code(code.clone()));
    match flow.action() {
        Action::Exchange(got) => assert_eq!(got, code),
        other => panic!("{other:?}"),
    }
    let flow = step(flow, Event::Done);
    assert!(matches!(flow.action(), Action::Finish(FlowEnd::Authorized)));
}

#[test]
fn client_ids_are_literal_or_documents() {
    let known = Cli { client_id: Some("abc".to_string()), ..cli() };
    assert_eq!(client_source(&known), ClientSource::Known { id: "abc".to_string() });
    let url = "https://example.com/client-metadata.json".to_string();
    let document = Cli { client_id: Some(url.clone()), ..cli() };
    assert_eq!(client_source(&document), ClientSource::Document { url: url.clone() });
    let http = Cli { client_id: Some("http://x".to_string()), ..cli() };
    assert_eq!(client_source(&http), ClientSource::Known { id: "http://x".to_string() });

    let flow = step(required(&document), Event::Cached(None));
    let flow = step(flow, Event::Opened { now: NOW });
    let flow = step(flow, Event::Bound { redirect_uri: "r".to_string() });
    match flow.action() {
        Action::FetchClient { url: got } => assert_eq!(got, url),
        other => panic!("{other:?}"),
    }
    let flow = step(flow, Event::Client { id: "from-document".to_string() });
    match flow.action() {
        Action::Authorize { scopes, client, .. } => {
            assert_eq!(scopes, vec!["a"]);
            assert_eq!(client, Client::Known { id: "from-document".to_string() });
        }
        other => panic!("{other:?}"),
    }
}

#[test]
fn failures_carry_their_context() {
    let cli = cli();
    let flow = step(acquire_auth_client(&cli), failure());
    match flow.action() {
        Action::Finish(FlowEnd::Failed { message }) => {
            assert_eq!(message, "failed to discover OAuth requirements: boom");
        }
        other => panic!("{other:?}"),
    }
    assert_eq!(
        Step::AwaitCode.failure_context(),
        "interactive OAuth flow failed: OAuth callback wait failed"
    );
    assert_eq!(Step::LoadCache.failure_context(), "failed to load cached credentials");
}
