use hyper_mcp_remote::auth::callback::{
    resolve, BindAttempt, CallbackError, CallbackQuery, CallbackServer, WaitError, CALLBACK_PATH,
    FAILURE_HTML, SUCCESS_HTML,
};

fn query() -> CallbackQuery {
    CallbackQuery { code: None, state: None, error: None, error_description: None, iss: None }
}

fn some(s: &str) -> Option<String> {
    Some(s.to_string())
}

fn server(addr: &str) -> CallbackServer {
    CallbackServer::bind("127.0.0.1", BindAttempt::Listening { addr: addr.to_string() })
        .expect("bind")
}

#[test]
fn bind_picks_ephemeral_port_when_zero() {
    let server = server("127.0.0.1:43210");
    assert!(server.redirect_uri.starts_with("http://127.0.0.1:"));
    assert!(server.redirect_uri.ends_with(CALLBACK_PATH));
    assert_eq!(server.redirect_uri, "http://127.0.0.1:43210/oauth/callback");
}

#[test]
fn bind_rejects_invalid_host() {
    let attempt = BindAttempt::NoAddress { cause: "invalid IP address syntax".to_string() };
    match CallbackServer::bind("not-an-ip", attempt) {
        Ok(_) => panic!("non-IP host must be rejected"),
        Err(err) => {
            assert!(err.message().contains("invalid callback host"));
            assert_eq!(
                err.message(),
                "invalid callback host 'not-an-ip': invalid IP address syntax"
            );
        }
    }
}

#[test]
fn bind_refuses_hosts_that_are_not_loopback() {
    let err = CallbackServer::bind("0.0.0.0", BindAttempt::NotLoopback).err().expect("refused");
    assert_eq!(
        err.message(),
        "refusing to bind OAuth callback server to '0.0.0.0': not a loopback address"
    );
}

#[test]
fn bind_reports_addresses_that_are_taken() {
    let attempt = BindAttempt::Unavailable {
        addr: "127.0.0.1:1".to_string(),
        cause: "denied".to_string(),
    };
    let err = CallbackServer::bind("127.0.0.1", attempt).err().expect("taken");
    assert_eq!(
        err.message(),
        "failed to bind OAuth callback server to 127.0.0.1:1: denied"
    );
}

#[test]
fn successful_callback_yields_code_and_state() {
    let mut server = server("127.0.0.1:1");
    let page = server.handle_callback(CallbackQuery {
        code: some("abc123"),
        state: some("xyz789"),
        ..query()
    });
    assert!(page.contains("Authorization complete"));
    let code = server.wait(false, 5).expect("wait");
    assert_eq!(code.code, "abc123");
    assert_eq!(code.state, "xyz789");
    assert_eq!(
        code.iss, None,
        "no iss param sent means AuthCode.iss must be None, not an empty string or default"
    );
}

#[test]
fn callback_with_iss_param_is_captured() {
    let mut server = server("127.0.0.1:1");
    server.handle_callback(CallbackQuery {
        code: some("abc123"),
        state: some("xyz789"),
        iss: some("https://auth.example.com"),
        ..query()
    });
    let code = server.wait(false, 5).expect("wait");
    assert_eq!(code.iss.as_deref(), Some("https://auth.example.com"));
    assert_eq!(code.clone(), code);
}

#[test]
fn callback_with_error_propagates() {
    let mut server = server("127.0.0.1:1");
    let page = server.handle_callback(CallbackQuery {
        error: some("access_denied"),
        error_description: some("user said no"),
        ..query()
    });
    assert!(page.contains("Authorization failed"));
    let err = server.wait(false, 5).expect_err("error param must surface");
    let msg = err.message();
    assert!(msg.contains("access_denied"), "got: {msg}");
    assert!(msg.contains("user said no"), "got: {msg}");
    assert_eq!(
        msg,
        "authorization server returned error: access_denied (user said no)"
    );
}

#[test]
fn callback_without_code_returns_missing_code() {
    let mut server = server("127.0.0.1:1");
    let page = server.handle_callback(query());
    assert_eq!(page, FAILURE_HTML);
    let err = server.wait(false, 5).expect_err("missing code must surface as error");
    assert!(err.message().contains("authorization code"));
}

#[test]
fn wait_times_out_when_no_callback_received() {
    let server = server("127.0.0.1:1");
    let err = server.wait(true, 300).expect_err("wait must time out");
    assert!(err.message().contains("timed out"));
    assert_eq!(
        err.message(),
        "timed out after 300s waiting for OAuth callback; the user did not complete the authorization flow"
    );
}

#[test]
fn wait_notices_a_dropped_server() {
    let err = server("127.0.0.1:1").wait(false, 300).expect_err("dropped");
    assert_eq!(err, WaitError::Dropped);
    assert_eq!(
        err.message(),
        "OAuth callback channel dropped before receiving a code"
    );
}

#[test]
fn only_the_first_callback_counts() {
    let mut server = server("127.0.0.1:1");
    server.handle_callback(CallbackQuery { error: some("nope"), ..query() });
    let page = server.handle_callback(CallbackQuery {
        code: some("late"),
        state: some("s"),
        ..query()
    });
    assert_eq!(page, SUCCESS_HTML);
    assert_eq!(
        server.wait(false, 1),
        Err(WaitError::Callback(CallbackError::AuthServer {
            error: "nope".to_string(),
            description: None
        }))
    );
}

#[test]
fn errors_go_before_codes_and_codes_need_a_state() {
    let both = CallbackQuery {
        code: some("c"),
        state: some("s"),
        error: some("e"),
        ..query()
    };
    assert_eq!(
        resolve(both).expect_err("error").message(),
        "authorization server returned error: e"
    );
    let stateless = CallbackQuery { code: some("c"), ..query() };
    assert_eq!(resolve(stateless), Err(CallbackError::MissingCode));
    let codeless = CallbackQuery { state: some("s"), ..query() };
    assert_eq!(resolve(codeless), Err(CallbackError::MissingCode));
}
