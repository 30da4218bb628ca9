//! The fixed wire values of the session-creation request the voice channel
//! issues: endpoint, model and voice identifiers, and the authorization
//! header built from the credential.

use vstd::prelude::*;
use vstd::string::StringExecFns;

verus! {

/// The endpoint the session-creation request is posted to.
pub fn session_url() -> (r: &'static str)
    ensures
        r@ == "https://api.openapi.com/v1/realtime/sessions"@,
{
    "https://api.openapi.com/v1/realtime/sessions"
}

/// The fixed realtime model identifier sent in the request body.
pub fn session_model() -> (r: &'static str)
    ensures
        r@ == "gpt-4o-realtime-preview-2024-12-17"@,
{
    "gpt-4o-realtime-preview-2024-12-17"
}

/// The fixed voice identifier sent in the request body.
pub fn session_voice() -> (r: &'static str)
    ensures
        r@ == "verse"@,
{
    "verse"
}

/// The authorization header value for a given credential: the bearer scheme
/// followed by the credential itself.
pub fn bearer_header(key: &str) -> (r: String)
    ensures
        r@ == "Bearer "@ + key@,
{
    let s = String::from_str("Bearer ");
    s.concat(key)
}

} // verus!
