use hyper_mcp_remote::auth::challenge::{parse_www_authenticate, split_top_level};
use hyper_mcp_remote::auth::discovery::{
    discover, prm_status, prm_urls, probe_failed, probe_verdict, supplied_authz_header,
    well_known_prm_urls, DiscoveryError, Fetched, OAuthDiscovery, PrmStatus, ProbeReply, ProbeVerdict, Probed,
    ProtectedResourceMetadata, Search, PRM_ACCEPT, PRM_TIMEOUT_SECS, PROBE_ACCEPT,
    PROBE_TIMEOUT_SECS,
};
use hyper_mcp_remote::headers::Headers;
use hyper_mcp_remote::weburl::Url;

const SERVER: &str = "http://127.0.0.1:4000/mcp";

#[test]
fn parse_basic_www_auth() {
    let h = parse_www_authenticate(
        r#"Bearer error="invalid_request", resource_metadata="https://x/.well-known/foo", scope="read write""#,
    );
    assert_eq!(
        h.resource_metadata.as_deref(),
        Some("https://x/.well-known/foo")
    );
    assert_eq!(h.scope.as_deref(), Some("read write"));
}

#[test]
fn parse_www_auth_without_bearer_prefix() {
    let h = parse_www_authenticate(r#"resource_metadata="https://x/m""#);
    assert_eq!(h.resource_metadata.as_deref(), Some("https://x/m"));
}

#[test]
fn well_known_paths_for_subpath() {
    let urls = well_known_prm_urls("https://example.com/mcp/v1")
        .expect("valid URL must yield PRM candidates");
    assert_eq!(
        urls,
        vec![
            "https://example.com/.well-known/oauth-protected-resource/mcp/v1".to_string(),
            "https://example.com/.well-known/oauth-protected-resource".to_string()
        ]
    );
}

#[test]
fn well_known_paths_for_root() {
    let urls = well_known_prm_urls("https://example.com/")
        .expect("valid URL must yield PRM candidates");
    assert_eq!(
        urls,
        vec!["https://example.com/.well-known/oauth-protected-resource".to_string()]
    );
}

#[test]
fn split_top_level_respects_quotes() {
    let parts = split_top_level(r#"a=1, b="x,y", c=3"#);
    assert_eq!(parts, vec!["a=1", r#" b="x,y""#, " c=3"]);
}

fn one_header(name: &str, value: &str) -> Headers {
    let mut h = Headers::new();
    h.insert(name.to_string(), value.as_bytes().to_vec());
    h
}

#[test]
fn detects_static_authorization_header() {
    let h = one_header("authorization", "Bearer xyz");
    assert_eq!(supplied_authz_header(&h), Some("Authorization"));
}

#[test]
fn detects_static_proxy_authorization_header() {
    let h = one_header("proxy-authorization", "Bearer xyz");
    assert_eq!(supplied_authz_header(&h), Some("Proxy-Authorization"));
}

#[test]
fn no_authz_header_returns_none() {
    let h = one_header("x-custom", "value");
    assert!(supplied_authz_header(&h).is_none());
}

fn reply(status: u16, www_authenticate: Option<&str>) -> ProbeReply {
    ProbeReply {
        status,
        www_authenticate: www_authenticate.map(|s| s.as_bytes().to_vec()),
    }
}

fn metadata(servers: &[&str], scopes: &[&str]) -> ProtectedResourceMetadata {
    ProtectedResourceMetadata {
        authorization_servers: servers.iter().map(|s| s.to_string()).collect(),
        scopes_supported: scopes.iter().map(|s| s.to_string()).collect(),
    }
}

/// A server whose metadata document, if any, is found at its well-known paths.
fn run(
    reply: ProbeReply,
    headers: &Headers,
    resource: Option<&Url>,
    document: Option<(&[&str], &[&str])>,
) -> Result<Option<OAuthDiscovery>, DiscoveryError> {
    let mut search = match discover(SERVER, headers, resource, &reply)? {
        Probed::Settled => return Ok(None),
        Probed::Searching(search) => search,
    };
    while let Some(url) = search.next() {
        let known = url == "http://127.0.0.1:4000/.well-known/oauth-protected-resource/mcp"
            || url == "http://127.0.0.1:4000/.well-known/oauth-protected-resource";
        let outcome = match document {
            Some((servers, scopes)) if known => Fetched::Found(metadata(servers, scopes)),
            _ => Fetched::Absent,
        };
        search.fetched(outcome);
    }
    search.conclude().map(Some)
}

#[test]
fn discover_returns_none_on_2xx() {
    assert!(run(reply(200, None), &Headers::new(), None, None).expect("discover").is_none());
}

#[test]
fn discover_returns_none_on_405() {
    assert!(run(reply(405, None), &Headers::new(), None, None).expect("discover").is_none());
}

#[test]
fn discover_returns_none_on_400() {
    assert!(run(reply(400, None), &Headers::new(), None, None).expect("discover").is_none());
}

#[test]
fn discover_errors_on_5xx() {
    let err = run(reply(500, None), &Headers::new(), None, None)
        .expect_err("5xx must not be silently treated as anonymous-OK");
    let msg = err.message();
    assert!(
        msg.contains("unexpected response") || msg.contains("500"),
        "got: {msg}"
    );
    assert_eq!(
        msg,
        "unexpected response from http://127.0.0.1:4000/mcp: 500 Internal Server Error; refusing to assume OAuth flow"
    );
}

#[test]
fn discover_bails_when_static_authz_header_rejected() {
    let headers = one_header("authorization", "Bearer not-real");
    let err = run(
        reply(401, Some("Bearer error=\"invalid_token\"")),
        &headers,
        None,
        None,
    )
    .expect_err("static-credential 401 must not silently switch to OAuth");
    let msg = err.message();
    assert!(msg.contains("Authorization"), "got: {msg}");
    assert!(msg.contains("401"), "got: {msg}");
    assert_eq!(
        msg,
        "remote MCP server at http://127.0.0.1:4000/mcp rejected the supplied --header 'Authorization: ...' with 401 Unauthorized; WWW-Authenticate: Bearer error=\"invalid_token\". Refusing to fall back to OAuth because a static credential was provided; check your token or omit the header to use OAuth"
    );
}

#[test]
fn discover_resolves_oauth_requirement_from_prm() {
    let document: (&[&str], &[&str]) = (&["https://auth.example.com"], &["read", "write"]);
    let d = run(reply(401, None), &Headers::new(), None, Some(document))
        .expect("discover")
        .expect("expected Required, got None");
    assert_eq!(d.authorization_server, "https://auth.example.com");
    assert_eq!(d.scopes, vec!["read".to_string(), "write".to_string()]);
    assert_eq!(
        d.resource.as_str(),
        SERVER,
        "without --resource, the resource must default to the server URL"
    );
}

#[test]
fn discover_prefers_www_authenticate_scope_over_prm() {
    let document: (&[&str], &[&str]) = (&["https://auth.example.com"], &["prm-only"]);
    let override_url = Url::parse("https://tenant.example.com/mcp").expect("override URL");
    let d = run(
        reply(401, Some(r#"Bearer scope="header-a header-b""#)),
        &Headers::new(),
        Some(&override_url),
        Some(document),
    )
    .expect("discover")
    .expect("expected Required");
    assert_eq!(
        d.scopes,
        vec!["header-a".to_string(), "header-b".to_string()],
        "header scope must win over PRM scopes_supported"
    );
    assert_eq!(d.resource, override_url);
}

#[test]
fn discover_skips_oauth_when_static_authorization_is_accepted() {
    let headers = one_header("authorization", "Bearer good-token");
    assert!(
        run(reply(200, None), &headers, None, None).expect("discover").is_none(),
        "static Authorization accepted by server must short-circuit to None (no OAuth)"
    );
}

#[test]
fn discover_falls_back_to_server_url_when_www_authenticate_has_no_resource_metadata() {
    let challenge = "Bearer realm=\"OAuth\", error=\"invalid_token\", \
                     error_description=\"Missing or invalid access token\"";
    let d = run(reply(401, Some(challenge)), &Headers::new(), None, None)
        .expect("discover must NOT bail when a Bearer challenge is present")
        .expect("expected Required, got None");
    assert_eq!(d.authorization_server, SERVER);
    assert!(d.scopes.is_empty());
}

#[test]
fn discover_bails_on_401_without_www_authenticate_or_prm() {
    let err = run(reply(401, None), &Headers::new(), None, None)
        .expect_err("must refuse to invent an authorization server");
    let msg = err.message();
    assert!(
        msg.contains("no WWW-Authenticate header"),
        "error should explain the missing OAuth signal; got: {msg}"
    );
    assert!(
        msg.contains("Mcp-Session-Id") || msg.contains("WWW-Authenticate"),
        "error should hint at common causes; got: {msg}"
    );
    assert!(
        msg.contains("--no-auth"),
        "error should point users at the --no-auth escape hatch; got: {msg}"
    );
}

#[test]
fn challenge_parameters_are_tolerant() {
    let h = parse_www_authenticate("  bearer SCOPE = a b , scope=\"c\", junk, Resource_Metadata=\"u,v\"");
    assert_eq!(h.scope.as_deref(), Some("c"), "the last value counts");
    assert_eq!(h.resource_metadata.as_deref(), Some("u,v"));
    let h = parse_www_authenticate("Bearer bearer scope=x");
    assert_eq!(h.scope.as_deref(), Some("x"));
    let h = parse_www_authenticate("");
    assert_eq!(h.scope, None);
    assert_eq!(h.resource_metadata, None);
    let h = parse_www_authenticate("BEARER scope=x");
    assert_eq!(h.scope, None);
}

#[test]
fn pieces_joined_are_the_text_again() {
    for s in ["", ",", "a,b", "\"a,b\",c", "\"open,ended", "a,\"b", "ä,ö"] {
        assert_eq!(split_top_level(s).join(","), s);
    }
}

#[test]
fn invalid_server_urls_have_no_well_known_paths() {
    let err = well_known_prm_urls("tenant-1").expect_err("no URL");
    assert_eq!(
        err,
        DiscoveryError::InvalidServerUrl { cause: "relative URL without a base".to_string() }
    );
    assert_eq!(err.message(), "invalid server URL: relative URL without a base");
}

#[test]
fn well_known_paths_keep_the_port_and_drop_trailing_slashes() {
    assert_eq!(
        well_known_prm_urls("http://EXAMPLE.com:8080/a//").expect("URL"),
        vec![
            "http://example.com:8080/.well-known/oauth-protected-resource/a",
            "http://example.com:8080/.well-known/oauth-protected-resource"
        ]
    );
    assert_eq!(prm_urls("o", "//"), vec!["o/.well-known/oauth-protected-resource"]);
}

#[test]
fn a_failed_probe_is_explained() {
    assert_eq!(
        probe_failed("https://example.com", "refused").message(),
        "probe request to https://example.com failed: refused"
    );
}

#[test]
fn verdicts_by_status() {
    assert_eq!(probe_verdict(204), ProbeVerdict::Reachable);
    assert_eq!(probe_verdict(199), ProbeVerdict::Unexpected);
    assert_eq!(probe_verdict(300), ProbeVerdict::Unexpected);
    assert_eq!(probe_verdict(401), ProbeVerdict::Unauthorized);
    assert_eq!(probe_verdict(403), ProbeVerdict::Unexpected);
    assert_eq!(prm_status(200), PrmStatus::Present);
    assert_eq!(prm_status(404), PrmStatus::Absent);
    assert_eq!(prm_status(302), PrmStatus::Failed);
    assert_eq!(prm_status(503), PrmStatus::Failed);
}

#[test]
fn unknown_statuses_are_shown_too() {
    let err = run(reply(799, None), &Headers::new(), None, None).expect_err("unexpected");
    assert_eq!(
        err,
        DiscoveryError::UnexpectedStatus {
            server_url: SERVER.to_string(),
            status: "799 <unknown status code>".to_string()
        }
    );
}

#[test]
fn invisible_challenges_count_as_absent() {
    let probe = ProbeReply { status: 401, www_authenticate: Some(vec![b'B', 0xe4]) };
    let err = run(probe, &Headers::new(), None, None).expect_err("no challenge");
    assert_eq!(
        err,
        DiscoveryError::NoAuthorizationServer { server_url: SERVER.to_string() }
    );
    let probe = ProbeReply { status: 401, www_authenticate: Some(b"Basic\trealm".to_vec()) };
    assert!(run(probe, &Headers::new(), None, None).expect("challenge").is_some());
}

#[test]
fn the_search_goes_on_until_a_document_is_found() {
    let server = Url::parse("https://example.com/mcp");
    let mut search = Search::start(
        "https://example.com/mcp",
        &server,
        "https://example.com",
        Some("Bearer resource_metadata=\"https://meta.example.com/x\""),
        None,
    )
    .expect("search");
    assert_eq!(search.next(), Some("https://meta.example.com/x"));
    search.fetched(Fetched::Failed);
    assert_eq!(
        search.next(),
        Some("https://example.com/.well-known/oauth-protected-resource/mcp")
    );
    search.fetched(Fetched::Absent);
    assert_eq!(
        search.next(),
        Some("https://example.com/.well-known/oauth-protected-resource")
    );
    search.fetched(Fetched::Found(metadata(&["https://as1", "https://as2"], &[])));
    assert_eq!(search.next(), None);
    let d = search.conclude().expect("discovery");
    assert_eq!(d.authorization_server, "https://as1");
    assert!(d.scopes.is_empty());
}

#[test]
fn the_search_stops_at_the_first_document() {
    let server = Url::parse("https://example.com/mcp");
    let mut search =
        Search::start("s", &server, "https://example.com", None, None).expect("search");
    search.fetched(Fetched::Found(metadata(&[], &["a"])));
    assert_eq!(search.next(), None);
    assert_eq!(
        search.conclude().expect_err("no server listed, no challenge"),
        DiscoveryError::NoAuthorizationServer { server_url: "s".to_string() }
    );
}

#[test]
fn unparsable_server_urls_end_the_search() {
    let bad: Result<Url, String> = Err("bad".to_string());
    let err = Search::start("s", &bad, "", None, None).expect_err("bad URL");
    assert_eq!(err, DiscoveryError::InvalidResource { cause: "bad".to_string() });
    assert_eq!(
        err.message(),
        "server URL is not a valid URL; cannot use it as the OAuth resource identifier: bad"
    );
    let resource = Url::parse("https://example.com/").expect("URL");
    let err = Search::start("s", &bad, "", None, Some(&resource)).expect_err("bad URL");
    assert_eq!(err, DiscoveryError::InvalidServerUrl { cause: "bad".to_string() });
}

#[test]
fn rejected_credentials_without_a_challenge() {
    let headers = one_header("proxy-authorization", "x");
    let err = run(reply(401, None), &headers, None, None).expect_err("rejected");
    assert_eq!(
        err,
        DiscoveryError::CredentialRejected {
            server_url: SERVER.to_string(),
            header: "Proxy-Authorization".to_string(),
            challenge: None
        }
    );
}

#[test]
fn failed_probes_are_explained() {
    let err = DiscoveryError::ProbeFailed {
        server_url: SERVER.to_string(),
        cause: "connection refused".to_string(),
    };
    assert_eq!(
        err.message(),
        "probe request to http://127.0.0.1:4000/mcp failed: connection refused"
    );
    assert_eq!(PROBE_ACCEPT, "application/json, text/event-stream");
    assert_eq!(PROBE_TIMEOUT_SECS, 10);
    assert_eq!(PRM_ACCEPT, "application/json");
    assert_eq!(PRM_TIMEOUT_SECS, 5);
}
