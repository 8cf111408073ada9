use hyper_mcp_remote::auth::discovery::supplied_authz_header;
use hyper_mcp_remote::headers::{
    environment_names, expand_env_vars, parse, parse_entry, references_of, Environment,
    HeaderError, Headers,
};

fn env(pairs: &[(&str, &str)]) -> Environment {
    let mut out = Environment::new();
    for (name, value) in pairs {
        out.set(name.to_string(), value.to_string());
    }
    out
}

#[test]
fn parses_simple_header() {
    let map = parse(&["X-Foo: bar".to_string()], &env(&[])).expect("parse");
    assert_eq!(
        map.get("x-foo").expect("x-foo header must be present").as_slice(),
        b"bar".as_slice()
    );
}

#[test]
fn rejects_missing_colon() {
    let err = parse(&["nope".to_string()], &env(&[])).expect_err("missing colon must fail");
    assert!(err.message().contains("invalid header"));
    assert_eq!(err, HeaderError::MissingColon { entry: "nope".to_string() });
}

#[test]
fn expands_env_var() {
    let vars = env(&[("HYPER_MCP_TEST_TOKEN", "secret-123")]);
    let map = parse(
        &["Authorization: Bearer ${HYPER_MCP_TEST_TOKEN}".to_string()],
        &vars,
    )
    .expect("parse with env var");
    assert_eq!(
        map.get("authorization")
            .expect("authorization header must be present")
            .as_slice(),
        b"Bearer secret-123".as_slice()
    );
}

#[test]
fn unterminated_env_var_is_left_verbatim() {
    let out = expand_env_vars("hello ${UNCLOSED", &env(&[]));
    assert_eq!(out, "hello ${UNCLOSED");
}

#[test]
fn unset_variables_expand_to_nothing() {
    let vars = env(&[("A", "1"), ("B", "${A}")]);
    assert_eq!(expand_env_vars("x${NOPE}y", &vars), "xy");
    assert_eq!(expand_env_vars("${A}${B}", &vars), "1${A}");
    assert_eq!(expand_env_vars("${}", &env(&[("", "empty")])), "empty");
    assert_eq!(expand_env_vars("$A $ {A} }", &vars), "$A $ {A} }");
    assert_eq!(expand_env_vars("a${A}b${OPEN", &vars), "a1b${OPEN");
    assert_eq!(expand_env_vars("${A${A}", &vars), "");
}

#[test]
fn later_bindings_win() {
    let vars = env(&[("A", "1"), ("A", "2")]);
    assert_eq!(vars.get("A"), Some("2"));
    assert_eq!(vars.get("B"), None);
}

#[test]
fn referenced_names_are_listed() {
    assert_eq!(references_of("${A} and ${B}${A} ${C"), vec!["A", "B", "A"]);
    assert_eq!(
        environment_names(&["X: ${A}".to_string(), "bad".to_string(), "Y:${B}".to_string()]),
        vec!["A", "B"]
    );
}

#[test]
fn empty_name_is_refused() {
    let err = parse_entry(" : value", &env(&[])).expect_err("empty name");
    assert_eq!(err, HeaderError::EmptyName { entry: " : value".to_string() });
    assert_eq!(err.message(), "invalid header ' : value': empty name");
    assert_eq!(err.full_message(), "invalid header ' : value': empty name");
}

#[test]
fn invalid_name_is_refused() {
    let err = parse_entry("a b: value", &env(&[])).expect_err("invalid name");
    assert_eq!(err.message(), "invalid header name 'a b'");
    assert_eq!(
        err.full_message(),
        "invalid header name 'a b': invalid HTTP header name"
    );
}

#[test]
fn invalid_value_is_refused() {
    let vars = env(&[("NL", "a\nb")]);
    let err = parse_entry("X: ${NL}", &vars).expect_err("invalid value");
    assert_eq!(err.message(), "invalid header value for 'X'");
    assert_eq!(
        err.full_message(),
        "invalid header value for 'X': failed to parse header value"
    );
}

#[test]
fn missing_colon_message_shows_the_entry() {
    let err = parse_entry("nope", &env(&[])).expect_err("missing colon");
    assert_eq!(err.message(), "invalid header 'nope', expected 'Name: value'");
}

#[test]
fn names_are_lower_cased_and_values_trimmed() {
    let header = parse_entry("  X-Trace-ID :  a: b  ", &env(&[])).expect("parse");
    assert_eq!(header.name, "x-trace-id");
    assert_eq!(header.value, b"a: b".to_vec());
}

#[test]
fn names_and_values_agree_with_the_http_crate() {
    for c in 0u32..0x250 {
        let Some(c) = char::from_u32(c) else { continue };
        if c == ':' || c.is_whitespace() {
            continue;
        }
        let name = format!("a{c}a");
        let entry = format!("{name}: v");
        let ours = parse_entry(&entry, &env(&[])).map(|h| h.name).ok();
        let theirs = http::HeaderName::try_from(name.as_str())
            .map(|n| n.as_str().to_string())
            .ok();
        assert_eq!(ours, theirs, "name {name:?}");
    }
    for c in 0u32..0x250 {
        let Some(c) = char::from_u32(c) else { continue };
        let value = format!("a{c}a");
        let entry = format!("n: {value}");
        let ours = parse_entry(&entry, &env(&[])).map(|h| h.value).ok();
        let theirs = http::HeaderValue::try_from(value.as_str())
            .map(|v| v.as_bytes().to_vec())
            .ok();
        assert_eq!(ours, theirs, "value {value:?}");
    }
}

#[test]
fn long_names_are_refused() {
    let name = "a".repeat(65535);
    assert!(parse_entry(&format!("{name}: v"), &env(&[])).is_ok());
    assert!(parse_entry(&format!("{name}a: v"), &env(&[])).is_err());
}

#[test]
fn later_headers_replace_earlier_ones() {
    let map = parse(
        &["X-B: 1".to_string(), "x-a: 2".to_string(), "x-b: 3".to_string()],
        &env(&[]),
    )
    .expect("parse");
    assert_eq!(map.len(), 2);
    assert_eq!(map.at(0).name, "x-a");
    assert_eq!(map.at(1).name, "x-b");
    assert_eq!(map.at(1).value, b"3".to_vec());
    assert!(map.contains("x-a"));
    assert!(!map.contains("X-A"));
}

#[test]
fn the_first_bad_header_is_reported() {
    let err = parse(
        &["ok: 1".to_string(), "first".to_string(), "second".to_string()],
        &env(&[]),
    )
    .expect_err("bad header");
    assert_eq!(err, HeaderError::MissingColon { entry: "first".to_string() });
}

#[test]
fn empty_header_set() {
    let h = Headers::new();
    assert_eq!(h.len(), 0);
    assert!(h.get("x").is_none());
}

#[test]
fn given_headers_are_found_however_they_are_written() {
    for entry in ["Authorization: x", "AUTHORIZATION: x", "authorization: x"] {
        let map = parse(&[entry.to_string()], &env(&[])).expect("parse");
        assert_eq!(supplied_authz_header(&map), Some("Authorization"));
    }
}
