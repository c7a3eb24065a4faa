//! Startup checks: the credential lookup result and the request URL.

use vstd::prelude::*;

verus! {

/// The fixed endpoint, up to the credential that is appended to it.
pub open spec fn endpoint_prefix() -> Seq<char> {
    "https://api.odpt.org/api/v4/odpt:TrainInformation?acl:consumerKey="@
}

/// The message printed when the credential variable is missing.
pub open spec fn missing_token_message() -> Seq<char> {
    "ODPT_TOKEN must be set"@
}

/// Decides whether the program may start: the credential read from the
/// environment is required, and its absence is fatal.
pub fn require_token(token: Option<String>) -> (r: Result<String, String>)
    ensures
        token is Some ==> r == Ok::<String, String>(token->0),
        token is None ==> r is Err && r->Err_0@ == missing_token_message(),
{
    match token {
        Some(t) => Ok(t),
        None => Err(String::from_str("ODPT_TOKEN must be set")),
    }
}

/// Embeds the credential as the query parameter of the fixed endpoint.
pub fn build_url(token: &str) -> (url: String)
    ensures
        url@ == endpoint_prefix() + token@,
{
    let mut url = String::from_str(
        "https://api.odpt.org/api/v4/odpt:TrainInformation?acl:consumerKey=",
    );
    url.append(token);
    url
}

} // verus!
