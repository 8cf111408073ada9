use hyper_mcp_remote::weburl::Url;

#[test]
fn parts_of_a_url() {
    let url = Url::parse("HTTPS://Example.com:8443/a/b?q=1#frag").expect("URL");
    assert_eq!(url.as_str(), "https://example.com:8443/a/b?q=1#frag");
    assert_eq!(url.scheme, "https");
    assert_eq!(url.host.as_deref(), Some("example.com"));
    assert_eq!(url.port, Some(8443));
    assert_eq!(url.path, "/a/b");
    assert_eq!(url.fragment.as_deref(), Some("frag"));
}

#[test]
fn implied_ports_are_left_out() {
    assert_eq!(Url::parse("https://example.com:443/").expect("URL").port, None);
    assert_eq!(Url::parse("http://example.com:443/").expect("URL").port, Some(443));
}

#[test]
fn urls_without_a_host() {
    let url = Url::parse("urn:example:cal").expect("URN");
    assert_eq!(url.scheme, "urn");
    assert_eq!(url.host, None);
    assert_eq!(url.path, "example:cal");
    assert_eq!(url.fragment, None);
}

#[test]
fn bad_urls_are_explained() {
    assert_eq!(
        Url::parse("tenant-1").expect_err("no URL"),
        "relative URL without a base"
    );
    assert_eq!(Url::parse("http://").expect_err("no host"), "empty host");
}

#[test]
fn clones_are_equal() {
    let url = Url::parse("https://example.com/mcp#x").expect("URL");
    assert_eq!(url.clone(), url);
}
