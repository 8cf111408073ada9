use std::path::PathBuf;

use hyper_mcp_remote::logging::{
    log_directory, panic_location, panic_payload, parse_max_log_files, LogDirectory,
    DEFAULT_MAX_LOG_FILES, LOG_FILE_PREFIX, LOG_PATH_ENV, MAX_LOG_FILES_ENV,
};

#[test]
fn env_var_name_is_stable() {
    assert_eq!(MAX_LOG_FILES_ENV, "HYPER_MCP_REMOTE_LOG_MAX_FILES");
}

#[test]
fn unset_uses_default() {
    assert_eq!(parse_max_log_files(None), DEFAULT_MAX_LOG_FILES);
}

#[test]
fn valid_value_is_parsed() {
    assert_eq!(parse_max_log_files(Some("3".to_string())), 3);
}

#[test]
fn surrounding_whitespace_is_tolerated() {
    assert_eq!(parse_max_log_files(Some("  5\n".to_string())), 5);
}

#[test]
fn zero_disables_pruning() {
    assert_eq!(parse_max_log_files(Some("0".to_string())), 0);
}

#[test]
fn invalid_value_falls_back_to_default() {
    assert_eq!(
        parse_max_log_files(Some("not-a-number".to_string())),
        DEFAULT_MAX_LOG_FILES
    );
    assert_eq!(parse_max_log_files(Some("-1".to_string())), DEFAULT_MAX_LOG_FILES);
    assert_eq!(parse_max_log_files(Some(String::new())), DEFAULT_MAX_LOG_FILES);
}

#[test]
fn the_default_is_one_above_a_week() {
    assert_eq!(DEFAULT_MAX_LOG_FILES, 8);
    assert_eq!(LOG_PATH_ENV, "HYPER_MCP_REMOTE_LOG_PATH");
    assert_eq!(LOG_FILE_PREFIX, "hyper-mcp-remote.log");
}

#[test]
fn log_directory_prefers_the_environment() {
    let env = PathBuf::from("/tmp/x");
    let config = PathBuf::from("/home/u/.config");
    assert_eq!(
        log_directory(Some(env.clone()), Some(config.clone())),
        Some(LogDirectory { base: env, below: vec![] })
    );
    assert_eq!(
        log_directory(None, Some(config.clone())),
        Some(LogDirectory {
            base: config,
            below: vec!["hyper-mcp-remote".to_string(), "logs".to_string()]
        })
    );
    assert_eq!(log_directory::<PathBuf>(None, None), None);
}

#[test]
fn panics_are_worded() {
    assert_eq!(panic_payload(Some("boom"), None), "boom");
    assert_eq!(panic_payload(None, Some(&"bang".to_string())), "bang");
    assert_eq!(panic_payload(None, None), "unknown panic payload");
    assert_eq!(panic_location(Some(("src/main.rs", 12, 5))), "src/main.rs:12:5");
    assert_eq!(panic_location(None), "unknown location");
}
