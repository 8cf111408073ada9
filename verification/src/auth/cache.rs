//! Cached OAuth credentials and their age.

use vstd::prelude::*;

verus! {

/// Number of seconds before nominal expiry at which a cached access token is
/// treated as expired. It is the margin that the OAuth client itself keeps,
/// so that the two agree on what "about to expire" means.
pub const REFRESH_BUFFER_SECS: u64 = 30;

/// A token as the authorization server sent it, as far as its age goes.
#[derive(Debug, Clone, PartialEq, Eq)]
pub struct TokenResponse {
    /// For how many seconds after its receipt the access token is valid.
    pub expires_in: Option<u64>,
}

/// Credentials as they are stored between launches.
#[derive(Debug, Clone, PartialEq, Eq)]
pub struct CachedCredentials {
    /// The client that the token was issued to.
    pub client_id: String,
    /// The token, if one was issued.
    pub token_response: Option<TokenResponse>,
    /// When the token was received, in seconds since the epoch.
    pub token_received_at: Option<u64>,
}

/// The seconds that lie between receipt and now; none where the clock went
/// back.
pub open spec fn age(received_at: u64, now: u64) -> int {
    if now >= received_at {
        now - received_at
    } else {
        0
    }
}

/// Has the cached access token expired, or is it about to? A token whose
/// receipt or lifetime is unknown counts as fresh.
pub open spec fn is_stale(cached: CachedCredentials, now: u64) -> bool {
    match (cached.token_received_at, cached.token_response) {
        (Some(received_at), Some(token)) => match token.expires_in {
            Some(expires_in) => expires_in - age(received_at, now) < REFRESH_BUFFER_SECS,
            None => false,
        },
        _ => false,
    }
}

/// True if the cached access token has expired, or is within
/// [`REFRESH_BUFFER_SECS`] of expiring, at `now` seconds since the epoch.
/// False when the cache lacks what is needed to tell, so that caches without
/// a timestamp are not refreshed over and over.
pub fn cached_access_token_is_stale(cached: &CachedCredentials, now: u64) -> (r: bool)
    ensures
        r == is_stale(*cached, now),
{
    let received_at: u64 = match cached.token_received_at {
        Some(t) => t,
        None => {
            return false;
        },
    };
    let expires_in: u64 = match &cached.token_response {
        Some(token) => match token.expires_in {
            Some(t) => t,
            None => {
                return false;
            },
        },
        None => {
            return false;
        },
    };
    let elapsed: u64 = now.saturating_sub(received_at);
    expires_in.saturating_sub(elapsed) < REFRESH_BUFFER_SECS
}

// ---------------------------------------------------------------------------
// Laws
// ---------------------------------------------------------------------------

/// A stale token stays stale.
pub proof fn law_stale_stays_stale(cached: CachedCredentials, now: u64, later: u64)
    requires
        is_stale(cached, now),
        now <= later,
    ensures
        is_stale(cached, later),
{
}

/// Without a time of receipt, without a token or without a lifetime nothing
/// is ever stale.
pub proof fn law_unknown_age_is_fresh(cached: CachedCredentials, now: u64)
    requires
        cached.token_received_at is None || cached.token_response is None || (
        cached.token_response matches Some(token) && token.expires_in is None),
    ensures
        !is_stale(cached, now),
{
}

/// An expired token is stale, and so is one that expires within the margin;
/// one that is valid for longer is not.
pub proof fn law_stale_from_the_margin_on(
    cached: CachedCredentials,
    token: TokenResponse,
    received_at: u64,
    expires_in: u64,
    now: u64,
)
    requires
        cached.token_received_at == Some(received_at),
        cached.token_response == Some(token),
        token.expires_in == Some(expires_in),
        received_at <= now,
    ensures
        is_stale(cached, now) <==> now > received_at + expires_in - REFRESH_BUFFER_SECS,
{
}

/// Writing the true time of receipt back keeps a stale token stale, where
/// the time of writing would make it look fresh.
pub proof fn law_the_true_receipt_matters(
    cached: CachedCredentials,
    restamped: CachedCredentials,
    token: TokenResponse,
    expires_in: u64,
    now: u64,
)
    requires
        is_stale(cached, now),
        cached.token_response == Some(token),
        token.expires_in == Some(expires_in),
        expires_in >= REFRESH_BUFFER_SECS,
        restamped == (CachedCredentials { token_received_at: Some(now), ..cached }),
    ensures
        !is_stale(restamped, now),
{
}

/// Where the clock went back behind the time of receipt, no time counts as
/// passed: only a token whose whole lifetime lies within the margin is stale.
pub proof fn law_a_clock_that_went_back(
    cached: CachedCredentials,
    token: TokenResponse,
    received_at: u64,
    expires_in: u64,
    now: u64,
)
    requires
        cached.token_received_at == Some(received_at),
        cached.token_response == Some(token),
        token.expires_in == Some(expires_in),
        now < received_at,
    ensures
        is_stale(cached, now) <==> expires_in < 30,
{
}

/// A token is stale from thirty seconds before its end on, and not earlier.
pub proof fn law_thirty_seconds_before_the_end(
    cached: CachedCredentials,
    token: TokenResponse,
    received_at: u64,
    expires_in: u64,
    now: u64,
)
    requires
        cached.token_received_at == Some(received_at),
        cached.token_response == Some(token),
        token.expires_in == Some(expires_in),
        received_at <= now,
    ensures
        is_stale(cached, now) <==> now + 30 > received_at + expires_in,
{
}

/// Who the token was issued to does not matter for its age.
pub proof fn law_staleness_is_about_time_only(a: CachedCredentials, b: CachedCredentials, now: u64)
    requires
        a.token_response == b.token_response,
        a.token_received_at == b.token_received_at,
    ensures
        is_stale(a, now) == is_stale(b, now),
{
}

} // verus!
