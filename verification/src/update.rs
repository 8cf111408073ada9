//! What a self-update is made of.
//!
//! Releases are looked for on GitHub, at most once in a while, verified with
//! a signature, and installed in place of the running binary, which is then
//! started anew where the system allows it. Downloading and replacing is left
//! to the caller.

use vstd::prelude::*;

verus! {

/// The owner of the repository with the releases.
pub const REPO_OWNER: &'static str = "hyper-mcp-rs";

/// The repository with the releases, which is also the name of the binary.
pub const REPO_NAME: &'static str = "hyper-mcp-remote";

/// Releases are looked for once in so many seconds.
pub const THROTTLE_SECS: u64 = 900;

/// The environment variable that keeps an updated binary from updating
/// itself again.
pub const RESTART_GUARD_ENV: &'static str = "HYPER_MCP_REMOTE_AUTO_UPDATED";

/// The length of an ed25519 verifying key.
pub const KEY_LEN: usize = 32;

/// How an update is carried out.
#[derive(Debug, PartialEq, Eq)]
pub struct UpdatePlan {
    /// The owner of the repository with the releases.
    pub repo_owner: &'static str,
    /// The repository with the releases.
    pub repo_name: &'static str,
    /// The name of the binary.
    pub bin_name: &'static str,
    /// Releases are looked for once in so many seconds.
    pub throttle_secs: u64,
    /// The key that releases are signed with.
    pub verifying_key: Vec<u8>,
    /// The environment variable that guards a restart, where the new binary
    /// is started in place of the running one.
    pub restart: Option<&'static str>,
    /// Is progress printed to the terminal?
    pub show_output: bool,
    /// Is the user asked before the binary is replaced?
    pub confirm: bool,
}

/// Why no update can be carried out.
#[derive(Debug, Clone, Copy, PartialEq, Eq, Structural)]
pub enum UpdateError {
    /// The verifying key is no key.
    MalformedKey,
}

impl UpdateError {
    /// What is written to the log.
    pub fn message(self) -> (r: &'static str)
        ensures
            r@ == "ed25519.pub must contain exactly 32 bytes"@,
    {
        "ed25519.pub must contain exactly 32 bytes"
    }
}

/// How an update is carried out. A running binary cannot be replaced by
/// another process image on Windows. Only a verbose update may print and ask:
/// standard output carries the protocol otherwise.
pub fn update(key: &[u8], on_windows: bool, verbose: bool) -> (r: Result<UpdatePlan, UpdateError>)
    ensures
        match r {
            Ok(plan) => {
                &&& key@.len() == KEY_LEN
                &&& plan.repo_owner@ == REPO_OWNER@
                &&& plan.repo_name@ == REPO_NAME@
                &&& plan.bin_name@ == REPO_NAME@
                &&& plan.throttle_secs == THROTTLE_SECS
                &&& plan.verifying_key@ == key@
                &&& match plan.restart {
                    Some(guard) => !on_windows && guard@ == RESTART_GUARD_ENV@,
                    None => on_windows,
                }
                &&& plan.show_output == verbose
                &&& plan.confirm == verbose
            },
            Err(e) => e == UpdateError::MalformedKey && key@.len() != KEY_LEN,
        },
{
    if key.len() != KEY_LEN {
        return Err(UpdateError::MalformedKey);
    }
    let mut verifying_key: Vec<u8> = Vec::new();
    let mut i: usize = 0;
    while i < key.len()
        invariant
            i <= key.len(),
            verifying_key@ == key@.take(i as int),
        decreases key.len() - i,
    {
        verifying_key.push(key[i]);
        i += 1;
        assert(key@.take(i as int) =~= key@.take(i - 1).push(key@[i - 1]));
    }
    assert(key@.take(i as int) =~= key@);
    Ok(
        UpdatePlan {
            repo_owner: REPO_OWNER,
            repo_name: REPO_NAME,
            bin_name: REPO_NAME,
            throttle_secs: THROTTLE_SECS,
            verifying_key,
            restart: if on_windows {
                None
            } else {
                Some(RESTART_GUARD_ENV)
            },
            show_output: verbose,
            confirm: verbose,
        },
    )
}

} // verus!
