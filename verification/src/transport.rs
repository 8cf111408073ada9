//! The outbound transport to the remote server.
//!
//! It carries the custom headers on every request, and goes through the HTTP
//! client that authentication produced.

use vstd::prelude::*;
use vstd::string::*;

use crate::headers::Headers;

verus! {

/// What authentication hands to the transport. `A` is a plain HTTP client,
/// and `C` one that attaches and refreshes tokens.
#[derive(Debug)]
pub enum AuthOutcome<A, C> {
    /// The server does not require OAuth.
    Anonymous { http_client: A },
    /// The server requires OAuth, and there is a client with credentials.
    Authorized { client: C },
}

/// Where a transport leads, and what it sends along.
#[derive(Debug)]
pub struct TransportConfig {
    /// The URL of the server.
    pub uri: String,
    /// Headers for every request.
    pub custom_headers: Headers,
}

/// A transport to the remote server.
#[derive(Debug)]
pub enum RemoteTransport<A, C> {
    Anonymous(A, TransportConfig),
    Authorized(C, TransportConfig),
}

/// Build the outbound transport for `server_url` from the outcome of
/// authentication and the custom headers.
pub fn build<A, C>(server_url: &str, headers: Headers, auth: AuthOutcome<A, C>) -> (r:
    RemoteTransport<A, C>)
    ensures
        match auth {
            AuthOutcome::Anonymous { http_client } => r matches RemoteTransport::Anonymous(
                client,
                config,
            ) && client == http_client && config.uri@ == server_url@ && config.custom_headers
                == headers,
            AuthOutcome::Authorized { client: c } => r matches RemoteTransport::Authorized(
                client,
                config,
            ) && client == c && config.uri@ == server_url@ && config.custom_headers == headers,
        },
{
    let config = TransportConfig { uri: server_url.to_string(), custom_headers: headers };
    match auth {
        AuthOutcome::Anonymous { http_client } => RemoteTransport::Anonymous(http_client, config),
        AuthOutcome::Authorized { client } => RemoteTransport::Authorized(client, config),
    }
}

} // verus!
