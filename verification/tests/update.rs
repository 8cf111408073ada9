use hyper_mcp_remote::cli::{Cli, Startup};
use hyper_mcp_remote::update::{update, UpdateError, KEY_LEN, THROTTLE_SECS};

#[test]
fn test_key_file_exists() {
    let key_bytes = [7u8; 32];
    assert_eq!(
        key_bytes.len(),
        32,
        "ed25519.pub must contain exactly 32 bytes for ed25519ph"
    );
    assert_eq!(KEY_LEN, 32);
    let plan = update(&key_bytes, false, false).expect("a key of 32 bytes");
    assert_eq!(plan.verifying_key, key_bytes.to_vec());
}

#[test]
fn test_update_flag_parsed() {
    let cli = Cli { update: true, ..Cli::default() };
    assert!(cli.update);
    assert_eq!(cli.startup(), Startup::Update);
}

#[test]
fn test_update_flag_false_by_default() {
    assert!(!Cli::default().update);
    assert_eq!(Cli::default().startup(), Startup::Proxy);
}

#[test]
fn keys_of_another_length_are_refused() {
    for n in [0usize, 31, 33, 64] {
        let err = update(&vec![1u8; n], false, false).expect_err("no key");
        assert_eq!(err, UpdateError::MalformedKey);
        assert_eq!(err.message(), "ed25519.pub must contain exactly 32 bytes");
    }
}

#[test]
fn updates_are_silent_unless_verbose() {
    let quiet = update(&[0; 32], false, false).expect("plan");
    assert!(!quiet.show_output && !quiet.confirm);
    assert_eq!(quiet.restart, Some("HYPER_MCP_REMOTE_AUTO_UPDATED"));
    let verbose = update(&[0; 32], false, true).expect("plan");
    assert!(verbose.show_output && verbose.confirm);
    let windows = update(&[0; 32], true, false).expect("plan");
    assert_eq!(windows.restart, None);
}

#[test]
fn updates_come_from_the_releases_of_the_project() {
    let plan = update(&[0; 32], false, false).expect("plan");
    assert_eq!(plan.repo_owner, "hyper-mcp-rs");
    assert_eq!(plan.repo_name, "hyper-mcp-remote");
    assert_eq!(plan.bin_name, "hyper-mcp-remote");
    assert_eq!(plan.throttle_secs, 15 * 60);
    assert_eq!(THROTTLE_SECS, 15 * 60);
}
