//! The MCP OAuth flow.
//!
//! [`discovery`] finds out what a server requires, with [`challenge`] reading
//! the header that demands it. [`flow`] leads from there to credentials, by
//! way of the [`cache`] that [`storage`] keeps, or of the user and the
//! [`callback`] of the browser. [`credentials`] tells what is kept.

pub mod cache;
pub mod callback;
pub mod challenge;
pub mod credentials;
pub mod discovery;
pub mod flow;
pub mod storage;
