//! Configuration of client authentication.
use vstd::prelude::*;

verus! {

/// How clients authenticate.
#[derive(Debug, Clone, Copy, PartialEq, Eq)]
pub enum AuthMethod {
    /// No authentication.
    NoAuth,
    /// A bearer token in the `authorization` header.
    Bearer,
}

/// The complaint about a bearer method without a token.
pub open spec fn missing_token_text() -> Seq<char> {
    "Bearer token must be provided when auth_method is 'bearer'."@
}

/// Checks that the settings are complete: a bearer method needs a token.
pub fn validate_auth(auth_method: AuthMethod, bearer_token: Option<&String>) -> (r: Result<(), String>)
    ensures
        r is Err <==> (auth_method is Bearer && bearer_token is None),
        r matches Err(m) ==> m@ == missing_token_text(),
{
    match auth_method {
        AuthMethod::NoAuth => Ok(()),
        AuthMethod::Bearer => match bearer_token {
            Some(_) => Ok(()),
            None => Err("Bearer token must be provided when auth_method is 'bearer'.".to_owned()),
        },
    }
}

} // verus!
