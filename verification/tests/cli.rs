use hyper_mcp_remote::cli::{Cli, CliError, Startup};
use hyper_mcp_remote::weburl::Url;

fn cli(server_url: &str) -> Cli {
    Cli { server_url: server_url.to_string(), ..Cli::default() }
}

fn with_resource(resource: &str) -> Cli {
    Cli {
        resource: Some(Url::parse(resource).expect("resource")),
        ..cli("https://example.com/mcp")
    }
}

#[test]
fn validate_accepts_https_url() {
    cli("https://example.com/mcp").validate().expect("https URL must validate");
}

#[test]
fn validate_accepts_http_loopback() {
    for host in ["http://127.0.0.1/mcp", "http://localhost/mcp"] {
        cli(host)
            .validate()
            .unwrap_or_else(|e| panic!("loopback http {host} should validate: {}", e.message()));
    }
}

#[test]
fn validate_rejects_non_loopback_http_without_flag() {
    let err = cli("http://example.com/mcp")
        .validate()
        .expect_err("non-loopback http must be rejected");
    let msg = err.message();
    assert!(
        msg.contains("--allow-http"),
        "error must mention the override flag; got: {msg}"
    );
    assert_eq!(
        msg,
        "refusing to use http:// for non-loopback server URL 'http://example.com/mcp'; pass --allow-http to override"
    );
}

#[test]
fn validate_accepts_non_loopback_http_with_allow_flag() {
    let cli = Cli { allow_http: true, ..cli("http://example.com/mcp") };
    cli.validate().expect("--allow-http should bypass the loopback check");
}

#[test]
fn validate_rejects_non_http_scheme() {
    let err = cli("ftp://example.com/mcp").validate().expect_err("ftp must be rejected");
    assert!(err.message().contains("http or https"));
    assert_eq!(err, CliError::UnsupportedScheme { what: "server URL".to_string() });
}

#[test]
fn validate_rejects_invalid_url() {
    let err = cli("::not a url::").validate().expect_err("garbage URL must be rejected");
    assert!(err.message().contains("invalid --server-url"));
    assert_eq!(err.message(), "invalid --server-url: relative URL without a base");
}

#[test]
fn resource_rejects_non_url_at_parse_time() {
    assert!(Url::parse("tenant-1").is_err(), "bare label must be rejected at parse time");
}

#[test]
fn validate_rejects_resource_with_fragment() {
    let err = with_resource("https://example.com/mcp#frag")
        .validate()
        .expect_err("fragment in --resource must be rejected (RFC 8707)");
    assert!(err.message().contains("fragment"), "got: {}", err.message());
    assert_eq!(
        err,
        CliError::ResourceFragment { url: "https://example.com/mcp#frag".to_string() }
    );
}

#[test]
fn validate_rejects_non_http_resource_scheme() {
    let err = with_resource("urn:example:cal")
        .validate()
        .expect_err("urn --resource must be rejected");
    assert!(err.message().contains("http or https"), "got: {}", err.message());
}

#[test]
fn validate_rejects_non_loopback_http_resource_without_flag() {
    let err = with_resource("http://example.com/mcp")
        .validate()
        .expect_err("non-loopback http --resource must be rejected");
    assert!(err.message().contains("--allow-http"), "got: {}", err.message());
}

#[test]
fn validate_accepts_http_resource_with_allow_flag() {
    let cli = Cli { allow_http: true, ..with_resource("http://example.com/mcp") };
    cli.validate().expect("--allow-http must apply to --resource too");
}

#[test]
fn defaults_are_sensible() {
    let cli = cli("https://example.com/mcp");
    assert!(cli.headers.is_empty());
    assert!(cli.resource.is_none());
    assert_eq!(cli.client_name, "hyper-mcp-remote");
    assert!(cli.client_id.is_none());
    assert!(cli.scope.is_none());
    assert_eq!(cli.callback_host, "127.0.0.1");
    assert!(cli.callback_port.is_none());
    assert_eq!(cli.auth_timeout_secs, 300);
    assert!(!cli.reset_auth);
    assert!(!cli.allow_http);
    assert!(!cli.no_auth);
    assert_eq!(cli.ping_interval_secs, 60);
    assert_eq!(cli.ping_timeout_secs, 10);
    assert!(cli.allow_tools.is_empty());
    assert!(cli.deny_tools.is_empty());
}

#[test]
fn parses_repeated_tool_filter_flags() {
    let cli = Cli {
        allow_tools: vec!["read_*".to_string(), "search".to_string()],
        deny_tools: vec!["read_secrets".to_string()],
        ..cli("https://example.com/mcp")
    };
    assert_eq!(cli.allow_tools, vec!["read_*", "search"]);
    assert_eq!(cli.deny_tools, vec!["read_secrets"]);
    cli.validate().expect("tool filter flags must validate");
}

#[test]
fn parses_client_id_as_plain_string() {
    let cli = Cli {
        client_id: Some("11111111-2222-3333-4444-555555555555".to_string()),
        ..cli("https://example.com/mcp")
    };
    assert_eq!(
        cli.client_id.as_deref(),
        Some("11111111-2222-3333-4444-555555555555")
    );
    cli.validate().expect("--client-id must validate");
}

#[test]
fn parses_no_auth_flag() {
    let cli = Cli { no_auth: true, ..cli("https://example.com/mcp") };
    assert!(cli.no_auth, "--no-auth must set the flag");
    cli.validate().expect("--no-auth must compose with normal validation");
}

#[test]
fn validate_rejects_zero_ping_timeout_when_pings_enabled() {
    let cli = Cli { ping_timeout_secs: 0, ..cli("https://example.com/mcp") };
    let err = cli
        .validate()
        .expect_err("zero ping timeout with enabled pings must be rejected");
    assert!(
        err.message().contains("--ping-timeout-secs"),
        "error must mention the offending flag; got: {}",
        err.message()
    );
}

#[test]
fn validate_accepts_zero_ping_timeout_when_pings_disabled() {
    let cli = Cli {
        ping_interval_secs: 0,
        ping_timeout_secs: 0,
        ..cli("https://example.com/mcp")
    };
    cli.validate().expect("disabled pings should bypass the timeout check");
}

#[test]
fn update_flag_is_false_by_default() {
    assert!(!cli("https://example.com/mcp").update, "--update must default to false");
}

#[test]
fn verbose_flag_is_false_by_default() {
    let cli = Cli { update: true, ..cli("https://example.com/mcp") };
    assert!(!cli.verbose, "--verbose must default to false");
}

#[test]
fn update_parses_without_server_url() {
    let cli = Cli { update: true, verbose: true, ..Cli::default() };
    assert!(cli.update);
    assert!(cli.verbose);
    assert!(
        cli.server_url.is_empty(),
        "server_url must default to empty when omitted"
    );
    assert_eq!(cli.startup(), Startup::Update);
}

#[test]
fn validate_rejects_empty_server_url() {
    let cli = Cli { update: true, ..Cli::default() };
    let err = cli.validate().expect_err("an empty server URL must be rejected");
    assert!(
        err.message().contains("SERVER_URL"),
        "error should name the missing SERVER_URL, got: {}",
        err.message()
    );
}

#[test]
fn update_with_a_server_url_runs_the_proxy_afterwards() {
    let cli = Cli { update: true, ..cli("https://example.com/mcp") };
    assert_eq!(cli.startup(), Startup::UpdateThenProxy);
}

#[test]
fn the_first_broken_rule_is_reported() {
    let cli = Cli {
        server_url: "http://example.com/".to_string(),
        ping_timeout_secs: 0,
        ..with_resource("ftp://example.com/#x")
    };
    assert_eq!(
        cli.validate(),
        Err(CliError::Cleartext {
            what: "server URL".to_string(),
            url: "http://example.com/".to_string()
        })
    );
}

#[test]
fn ipv6_loopback_is_recognized() {
    assert_eq!(cli("http://[::1]/mcp").validate(), Ok(()));
    assert_eq!(cli("http://[0:0:0:0:0:0:0:1]:8080/mcp").validate(), Ok(()));
    assert!(cli("http://[::2]/mcp").validate().is_err());
    let url = Url::parse("http://[::1]/mcp").expect("URL");
    assert_eq!(url.host.as_deref(), Some("[::1]"));
    assert_eq!(cli("http://[::1]/mcp").check_http_scheme(&url, "server URL"), Ok(()));
}

#[test]
fn validation_of_a_parsed_url() {
    let url = Url {
        serialization: "http://[::1]/".to_string(),
        scheme: "http".to_string(),
        host: Some("[::1]".to_string()),
        port: None,
        path: "/".to_string(),
        fragment: None,
    };
    assert_eq!(cli("x").validate_parsed(&Ok(url)), Ok(()));
    assert_eq!(
        cli("x").validate_parsed(&Err("bad".to_string())),
        Err(CliError::InvalidServerUrl { cause: "bad".to_string() })
    );
    assert_eq!(
        Cli::default().validate_parsed(&Err("bad".to_string())),
        Err(CliError::MissingServerUrl)
    );
}

#[test]
fn messages_of_all_rules() {
    assert_eq!(
        CliError::MissingServerUrl.message(),
        "missing <SERVER_URL>: a remote MCP server URL is required (it may be omitted only when running --update on its own)"
    );
    assert_eq!(
        CliError::UnsupportedScheme { what: "--resource URL".to_string() }.message(),
        "--resource URL must use http or https scheme"
    );
    assert_eq!(
        CliError::ResourceFragment { url: "u#f".to_string() }.message(),
        "--resource must not include a fragment (RFC 8707): 'u#f'"
    );
    assert_eq!(
        CliError::ZeroPingTimeout.message(),
        "--ping-timeout-secs must be > 0 when keepalive pings are enabled"
    );
}
