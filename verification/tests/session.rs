use hyper_mcp_remote::headers::Headers;
use hyper_mcp_remote::session::{identity_bytes, shortened, CredentialKey, SessionHash};

fn empty() -> Headers {
    Headers::new()
}

fn headers(pairs: &[(&str, &str)]) -> Headers {
    let mut out = Headers::new();
    for (name, value) in pairs {
        out.insert(name.to_string(), value.as_bytes().to_vec());
    }
    out
}

#[test]
fn deterministic() {
    let a = SessionHash::new("https://example.com/mcp", None, &empty());
    let b = SessionHash::new("https://example.com/mcp", None, &empty());
    assert_eq!(a, b);
}

#[test]
fn differs_on_resource() {
    let a = SessionHash::new("https://example.com/mcp", None, &empty());
    let b = SessionHash::new("https://example.com/mcp", Some("tenant-1"), &empty());
    assert_ne!(a, b);
}

#[test]
fn differs_on_headers() {
    let h = headers(&[("x-foo", "bar")]);
    let a = SessionHash::new("https://example.com/mcp", None, &empty());
    let b = SessionHash::new("https://example.com/mcp", None, &h);
    assert_ne!(a, b);
}

#[test]
fn header_order_does_not_matter() {
    let h1 = headers(&[("x-a", "1"), ("x-b", "2")]);
    let h2 = headers(&[("x-b", "2"), ("x-a", "1")]);
    let a = SessionHash::new("https://example.com/mcp", None, &h1);
    let b = SessionHash::new("https://example.com/mcp", None, &h2);
    assert_eq!(a, b);
}

#[test]
fn hex_length_is_sixteen() {
    let h = SessionHash::new("https://example.com/mcp", None, &empty());
    assert_eq!(h.as_str().len(), 16);
    assert!(h.as_str().chars().all(|c| c.is_ascii_hexdigit()));
}

#[test]
fn hashed_bytes_are_url_resource_and_sorted_headers() {
    let h = headers(&[("x-b", "2"), ("x-a", "1")]);
    assert_eq!(
        identity_bytes("https://example.com/mcp", None, &h),
        b"https://example.com/mcp||x-a:1\nx-b:2\n".to_vec()
    );
    assert_eq!(
        identity_bytes("u", Some("r"), &empty()),
        b"u|r|".to_vec()
    );
}

#[test]
fn known_hashes() {
    let url = "https://example.com/mcp";
    assert_eq!(SessionHash::new(url, None, &empty()).as_str(), "643f75c95b01c380");
    assert_eq!(SessionHash::new(url, Some("tenant-1"), &empty()).as_str(), "c2a6e03f34c62d84");
    let h = headers(&[("x-a", "1"), ("x-b", "2")]);
    assert_eq!(SessionHash::new(url, None, &h).as_str(), "b4d9774a8cab898f");
}

#[test]
fn no_resource_and_an_empty_one_differ() {
    let url = "https://example.com/mcp";
    assert_ne!(
        SessionHash::new(url, None, &empty()),
        SessionHash::new(url, Some(""), &empty())
    );
    assert_ne!(CredentialKey::new(url, None), CredentialKey::new(url, Some("")));
    assert_eq!(identity_bytes("u", Some(""), &empty()), b"u|\\-|".to_vec());
    assert_eq!(identity_bytes("u", Some("\\-"), &empty()), b"u|\\\\-|".to_vec());
}

#[test]
fn bars_do_not_blur_url_and_resource() {
    assert_ne!(
        SessionHash::new("a|b", Some("c"), &empty()),
        SessionHash::new("a", Some("b|c"), &empty())
    );
    assert_ne!(
        CredentialKey::new("a|b", Some("c")),
        CredentialKey::new("a", Some("b|c"))
    );
    assert_ne!(CredentialKey::new("a|b", None), CredentialKey::new("a", Some("b|")));
    assert_eq!(
        identity_bytes("a|b", Some("c\\d|"), &empty()),
        b"a\\|b|c\\\\d\\||".to_vec()
    );
}

#[test]
fn credential_key_is_the_hash_without_headers() {
    let key = CredentialKey::new("https://example.com/mcp", Some("tenant-1"));
    let bare = SessionHash::new("https://example.com/mcp", Some("tenant-1"), &empty());
    assert_eq!(key.as_str(), bare.as_str());
    assert_ne!(
        CredentialKey::new("https://example.com/mcp", None),
        CredentialKey::new("https://example.com/mcp", Some("tenant-1"))
    );
}

#[test]
fn shortened_takes_eight_bytes_in_lower_case() {
    let digest: Vec<u8> = vec![0x00, 0x0f, 0xa0, 0xff, 0x12, 0x34, 0xab, 0xcd, 0x77];
    assert_eq!(shortened(&digest), "000fa0ff1234abcd");
}
