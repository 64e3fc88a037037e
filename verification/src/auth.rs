//! Authentication against the service's OAuth2 client-credentials
//! endpoint: the fields of the token request, the success check on its
//! status, and the header every later request carries.

use vstd::prelude::*;

verus! {

/// The OAuth2 token endpoint.
pub fn token_url() -> (r: String)
    ensures
        r@ == "https://api.sharesight.com/oauth2/token"@,
{
    String::from_str("https://api.sharesight.com/oauth2/token")
}

/// The collection endpoint listing the custom investments.
pub fn investments_url() -> (r: String)
    ensures
        r@ == "https://api.sharesight.com/api/v3/custom_investments.json"@,
{
    String::from_str("https://api.sharesight.com/api/v3/custom_investments.json")
}

/// The form fields of the token request: the client-credentials grant with
/// the caller's id and secret, in this order and nothing else.
pub fn auth_form_params(client_id: &str, client_secret: &str) -> (r: Vec<(String, String)>)
    ensures
        r@.len() == 3,
        r@[0].0@ == "grant_type"@ && r@[0].1@ == "client_credentials"@,
        r@[1].0@ == "client_id"@ && r@[1].1@ == client_id@,
        r@[2].0@ == "client_secret"@ && r@[2].1@ == client_secret@,
{
    let mut params: Vec<(String, String)> = Vec::new();
    params.push((String::from_str("grant_type"), String::from_str("client_credentials")));
    params.push((String::from_str("client_id"), client_id.to_owned()));
    params.push((String::from_str("client_secret"), client_secret.to_owned()));
    params
}

/// An HTTP status belongs to the success class.
pub open spec fn spec_is_success_status(code: int) -> bool {
    200 <= code < 300
}

/// Whether an HTTP status code reports success.
pub fn status_is_success(code: u16) -> (r: bool)
    ensures
        r == spec_is_success_status(code as int),
{
    200 <= code && code < 300
}

/// Authentication failed: the token endpoint answered outside the success
/// class.
pub enum AuthError {
    TokenRequestDenied,
}

/// Gates every command on the token response: only a success-class status
/// lets the run proceed; any other status is an authentication failure,
/// after which no command logic may run.
pub fn auth_gate(status: u16) -> (r: Result<(), AuthError>)
    ensures
        r is Ok <==> spec_is_success_status(status as int),
        !spec_is_success_status(status as int) ==> r == Err::<(), AuthError>(
            AuthError::TokenRequestDenied,
        ),
{
    if status_is_success(status) {
        Ok(())
    } else {
        Err(AuthError::TokenRequestDenied)
    }
}

/// The `Authorization` header value carrying the bearer token.
pub fn bearer_header_value(token: &str) -> (r: String)
    ensures
        r@ == "Bearer "@ + token@,
{
    let mut h = String::from_str("Bearer ");
    h.append(token);
    h
}

} // verus!
