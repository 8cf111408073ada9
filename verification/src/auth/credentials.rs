//! OAuth credentials as the `rmcp` crate keeps them, and their JSON text.
//!
//! A record belongs to the crate and is carried through unopened. What it
//! holds is given by [`credentials_of`], and what a text stands for by
//! [`credentials_in`].

use rmcp::transport::auth::StoredCredentials;
use vstd::prelude::*;
use vstd::string::*;

use crate::auth::cache::{CachedCredentials, TokenResponse};

verus! {

/// The credential record of the `rmcp` crate.
#[verifier::external_type_specification]
#[verifier::external_body]
pub struct ExStoredCredentials(StoredCredentials);

// ---------------------------------------------------------------------------
// What a record holds
// ---------------------------------------------------------------------------

/// A JSON value.
pub enum JsonView {
    Null,
    Bool(bool),
    /// A number that is kept as an integer.
    Whole(int),
    /// A number that is kept as a floating-point number, as it is written.
    Fraction(Seq<char>),
    Text(Seq<char>),
    List(Seq<JsonView>),
    Object(Map<Seq<char>, JsonView>),
}

/// A token as the authorization server sent it.
pub struct TokenView {
    pub access_token: Seq<char>,
    pub token_type: Seq<char>,
    pub expires_in: Option<u64>,
    pub refresh_token: Option<Seq<char>>,
    pub scopes: Option<Seq<Seq<char>>>,
    /// The fields that no standard describes.
    pub extra: Map<Seq<char>, JsonView>,
}

/// What a credential record holds.
pub struct CredentialsView {
    pub client_id: Seq<char>,
    pub token: Option<TokenView>,
    pub granted_scopes: Seq<Seq<char>>,
    pub token_received_at: Option<u64>,
}

/// What the fields of a record hold.
pub uninterp spec fn credentials_of(record: StoredCredentials) -> CredentialsView;

/// What `serde_json::from_str` makes of `raw`: the fields of the record, or
/// the text of the error.
pub uninterp spec fn credentials_in(raw: Seq<char>) -> Result<CredentialsView, Seq<char>>;

// ---------------------------------------------------------------------------
// What survives a text
// ---------------------------------------------------------------------------

/// Is `key` the name of a standard field of a token?
pub open spec fn is_standard_field(key: Seq<char>) -> bool {
    ||| key == "access_token"@
    ||| key == "token_type"@
    ||| key == "expires_in"@
    ||| key == "refresh_token"@
    ||| key == "scope"@
}

/// Does `serde_json` give this key of an object a meaning of its own?
pub open spec fn is_reserved_key(key: Seq<char>) -> bool {
    ||| key == "$serde_json::private::RawValue"@
    ||| key == "$serde_json::private::Number"@
}

/// Is the value read back from its text as it was? `depth` is how many lists
/// and objects may stand inside each other.
pub open spec fn value_survives(value: JsonView, depth: nat) -> bool
    decreases depth,
{
    match value {
        JsonView::Fraction(_) => false,
        JsonView::List(items) => depth > 0 && forall|i: int|
            0 <= i < items.len() ==> value_survives(#[trigger] items[i], (depth - 1) as nat),
        JsonView::Object(fields) => depth > 0 && forall|key: Seq<char>| #[trigger]
            fields.dom().contains(key) ==> !is_reserved_key(key) && value_survives(
                fields[key],
                (depth - 1) as nat,
            ),
        _ => true,
    }
}

/// How many lists and objects may stand inside each other in an extra field:
/// two of the 127 that `serde_json` reads are the record and the token.
pub open spec fn extra_depth() -> nat {
    125
}

/// Is `c` an ASCII character that lower-casing keeps?
pub open spec fn is_lower_ascii(c: char) -> bool {
    c <= '\u{7f}' && !('A' <= c <= 'Z')
}

/// Is the token read back from its text as it was? Token types are read in
/// lower case, scopes are written with blanks between them, and an extra
/// field must not take the place of a standard one.
pub open spec fn token_survives(token: TokenView) -> bool {
    &&& forall|i: int|
        0 <= i < token.token_type.len() ==> is_lower_ascii(#[trigger] token.token_type[i])
    &&& token.scopes matches Some(scopes) ==> {
        &&& scopes.len() > 0
        &&& forall|i: int| 0 <= i < scopes.len() ==> !(#[trigger] scopes[i]).contains(' ')
    }
    &&& forall|key: Seq<char>| #[trigger]
        token.extra.dom().contains(key) ==> !is_standard_field(key) && value_survives(
            token.extra[key],
            extra_depth(),
        )
}

/// Are the credentials read back from their text as they were?
pub open spec fn survives(c: CredentialsView) -> bool {
    c.token matches Some(token) ==> token_survives(token)
}

/// Does `raw` stand for the credentials `c`? Where they survive, they are
/// read back as they were. In any case what is read, if anything, has the
/// same client, granted scopes, time of receipt and access token.
pub open spec fn stands_for(raw: Seq<char>, c: CredentialsView) -> bool {
    &&& survives(c) ==> credentials_in(raw) == Ok::<CredentialsView, Seq<char>>(c)
    &&& credentials_in(raw) matches Ok(read) ==> {
        &&& read.client_id == c.client_id
        &&& read.granted_scopes == c.granted_scopes
        &&& read.token_received_at == c.token_received_at
        &&& read.token is Some <==> c.token is Some
        &&& read.token is Some ==> read.token->0.access_token == c.token->0.access_token
    }
}

// ---------------------------------------------------------------------------
// Reading and writing
// ---------------------------------------------------------------------------

/// `serde_json::from_str`, into a credential record. Claims that what the
/// record holds, or the text of the error, depends on the text alone.
#[verifier::external_body]
pub(crate) fn from_json(raw: &str) -> (r: Result<StoredCredentials, String>)
    ensures
        match r {
            Ok(record) => credentials_in(raw@) == Ok::<CredentialsView, Seq<char>>(
                credentials_of(record),
            ),
            Err(e) => credentials_in(raw@) == Err::<CredentialsView, Seq<char>>(e@),
        },
{
    serde_json::from_str(raw).map_err(|e| e.to_string())
}

/// `serde_json::to_string`, of a credential record. Claims that the text
/// stands for what the record holds, and that there is one where all of it
/// survives. The text itself is left open, since extra fields come in any
/// order, and so is what is said where there is none.
#[verifier::external_body]
pub(crate) fn to_json(record: &StoredCredentials) -> (r: Result<String, String>)
    ensures
        survives(credentials_of(*record)) ==> r is Ok,
        r matches Ok(raw) ==> stands_for(raw@, credentials_of(*record)),
{
    serde_json::to_string(record).map_err(|e| e.to_string())
}

/// The public fields of `rmcp::transport::auth::StoredCredentials`, and
/// `oauth2::TokenResponse::expires_in` of its token. Claims that client, lifetime of the token and time of receipt are those
/// that the record holds.
#[verifier::external_body]
fn read_fields(record: &StoredCredentials) -> (r: (String, Option<Option<u64>>, Option<u64>))
    ensures
        r.0@ == credentials_of(*record).client_id,
        r.1 == (match credentials_of(*record).token {
            Some(token) => Some(token.expires_in),
            None => None,
        }),
        r.2 == credentials_of(*record).token_received_at,
{
    let lifetime: Option<Option<u64>> = record.token_response.as_ref().map(
        |token| oauth2::TokenResponse::expires_in(token).map(|d| d.as_secs()),
    );
    (record.client_id.clone(), lifetime, record.token_received_at)
}

impl CachedCredentials {
    /// Is this what the flow looks at in the credentials `c`?
    pub open spec fn shows(self, c: CredentialsView) -> bool {
        &&& self.client_id@ == c.client_id
        &&& self.token_received_at == c.token_received_at
        &&& match c.token {
            Some(token) => self.token_response == Some(
                TokenResponse { expires_in: token.expires_in },
            ),
            None => self.token_response is None,
        }
    }

    /// What the flow looks at in a credential record.
    pub fn of(record: &StoredCredentials) -> (r: CachedCredentials)
        ensures
            r.shows(credentials_of(*record)),
    {
        let (client_id, lifetime, token_received_at): (
            String,
            Option<Option<u64>>,
            Option<u64>,
        ) = read_fields(record);
        let token_response: Option<TokenResponse> = match lifetime {
            Some(expires_in) => Some(TokenResponse { expires_in }),
            None => None,
        };
        CachedCredentials { client_id, token_response, token_received_at }
    }
}

// ---------------------------------------------------------------------------
// Laws
// ---------------------------------------------------------------------------

/// What the flow looks at is the client of the record, its time of receipt,
/// and the lifetime of its token.
pub proof fn law_what_the_flow_sees(cached: CachedCredentials, c: CredentialsView)
    requires
        cached.shows(c),
    ensures
        cached.client_id@ == c.client_id,
        cached.token_received_at == c.token_received_at,
        cached.token_response is Some <==> c.token is Some,
        c.token is Some ==> cached.token_response->0.expires_in == c.token->0.expires_in,
{
}

} // verus!
