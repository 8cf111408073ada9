//! The logic of `hyper-mcp-remote`, a stdio to Streamable-HTTP MCP proxy with
//! OAuth.
//!
//! An MCP client spawns the proxy as a stdio server, and the proxy forwards
//! every message to a remote Streamable-HTTP MCP server. On first run it
//! performs the MCP OAuth flow against the remote, and caches the tokens in
//! the secret store of the operating system.
//!
//! This library holds what is decided and computed on the way: what command
//! lines mean, how headers are parsed, which tools are forwarded, how a server
//! is probed and its OAuth requirements found out, in which order credentials
//! are looked for, refreshed and asked for, and what is told about failures.
//! It performs no I/O. Where something has to be done in the world, a function
//! says what, and takes what came of it.

pub mod auth;
pub mod cli;
pub mod filter;
pub mod headers;
pub mod launch;
pub mod logging;
pub mod number;
pub mod proxy;
pub mod session;
pub mod text;
pub mod transport;
pub mod update;
pub mod weburl;
