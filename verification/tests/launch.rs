use std::time::Duration;

use hyper_mcp_remote::cli::Cli;
use hyper_mcp_remote::headers::Environment;
use hyper_mcp_remote::launch::{prepare, proxy_settings, LaunchError};
use hyper_mcp_remote::session::{CredentialKey, SessionHash};
use hyper_mcp_remote::weburl::Url;

fn cli() -> Cli {
    Cli { server_url: "https://example.com/mcp".to_string(), ..Cli::default() }
}

#[test]
fn a_launch_is_prepared() {
    let mut env = Environment::new();
    env.set("T".to_string(), "tok".to_string());
    let cli = Cli {
        headers: vec!["Authorization: Bearer ${T}".to_string()],
        resource: Some(Url::parse("https://example.com/tenant").expect("URL")),
        ..cli()
    };
    let launch = prepare(&cli, &env).expect("launch");
    assert_eq!(launch.headers.len(), 1);
    assert_eq!(
        launch.session,
        SessionHash::new(
            "https://example.com/mcp",
            Some("https://example.com/tenant"),
            &launch.headers
        )
    );
    assert_eq!(
        launch.cred_key,
        CredentialKey::new("https://example.com/mcp", Some("https://example.com/tenant"))
    );
    assert_ne!(launch.session.as_str(), launch.cred_key.as_str());
}

#[test]
fn refused_launches_say_why() {
    let env = Environment::new();
    let err = prepare(&Cli { server_url: "ftp://x".to_string(), ..cli() }, &env)
        .expect_err("bad scheme");
    assert_eq!(
        err.message(),
        "invalid CLI arguments: server URL must use http or https scheme"
    );
    let err = prepare(&Cli { headers: vec!["x".to_string()], ..cli() }, &env)
        .expect_err("bad header");
    assert_eq!(
        err.message(),
        "failed to parse --header arguments: invalid header 'x', expected 'Name: value'"
    );
    let err = proxy_settings(&Cli { allow_tools: vec!["[".to_string()], ..cli() })
        .err()
        .expect("bad pattern");
    assert!(matches!(err, LaunchError::Filter(_)));
    assert!(err
        .message()
        .starts_with("failed to compile tool filter patterns: --allow-tool: invalid glob pattern \"[\": "));
}

#[test]
fn proxy_settings_follow_the_flags() {
    let cli = Cli { deny_tools: vec!["x".to_string()], ..cli() };
    let (keepalive, filter) = proxy_settings(&cli).ok().expect("settings");
    assert_eq!(keepalive.interval, Some(Duration::from_secs(60)));
    assert_eq!(keepalive.timeout, Duration::from_secs(10));
    assert!(!filter.permits("x"));
    assert!(filter.permits("y"));
    let quiet = Cli { ping_interval_secs: 0, ping_timeout_secs: 0, ..cli };
    let (keepalive, _) = proxy_settings(&quiet).ok().expect("settings");
    assert_eq!(keepalive.interval, None);
    assert_eq!(keepalive.timeout, Duration::from_secs(1));
}
