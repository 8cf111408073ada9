use hyper_mcp_remote::headers::Headers;
use hyper_mcp_remote::transport::{build, AuthOutcome, RemoteTransport};

fn anon_outcome() -> AuthOutcome<reqwest::Client, ()> {
    AuthOutcome::Anonymous { http_client: reqwest::Client::new() }
}

#[test]
fn build_returns_anonymous_variant_for_anonymous_outcome() {
    let mut headers = Headers::new();
    headers.insert("x-trace".to_string(), b"abc".to_vec());
    let t = build("https://example.com/mcp", headers, anon_outcome());
    match t {
        RemoteTransport::Anonymous(_, config) => {
            assert_eq!(config.uri, "https://example.com/mcp");
            assert_eq!(config.custom_headers.len(), 1);
            assert_eq!(config.custom_headers.at(0).name, "x-trace");
        }
        RemoteTransport::Authorized(..) => panic!("anonymous outcome, authorized transport"),
    }
}

#[test]
fn build_accepts_empty_headers() {
    let t = build("https://example.com/mcp", Headers::new(), anon_outcome());
    assert!(matches!(t, RemoteTransport::Anonymous(..)));
}

#[test]
fn build_accepts_multiple_headers() {
    let mut headers = Headers::new();
    headers.insert("x-a".to_string(), b"1".to_vec());
    headers.insert("x-b".to_string(), b"2".to_vec());
    let t = build("http://127.0.0.1:8080/mcp", headers, anon_outcome());
    assert!(matches!(t, RemoteTransport::Anonymous(..)));
}

#[test]
fn build_keeps_the_authorized_client() {
    let auth: AuthOutcome<(), u8> = AuthOutcome::Authorized { client: 5 };
    match build("u", Headers::new(), auth) {
        RemoteTransport::Authorized(client, config) => {
            assert_eq!(client, 5);
            assert_eq!(config.uri, "u");
        }
        RemoteTransport::Anonymous(..) => panic!("authorized outcome, anonymous transport"),
    }
}
