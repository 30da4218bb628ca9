//! The voice channel: one outbound text frame per connection — the raw body
//! returned by the session-creation API, or the `"Error"` sentinel — and
//! nothing else.

use vstd::prelude::*;
use vstd::string::StringExecFns;

use crate::frame::{error_payload, payload, Frame};
use crate::relay::{all_text, payloads};

verus! {

/// The payload of the single frame the voice channel sends, given the
/// outcome of the session fetch: the upstream response body verbatim on
/// success, the `"Error"` sentinel on failure (network error, non-success
/// status, or body-decode failure).
pub open spec fn voice_payload(fetch: Option<String>) -> Seq<char> {
    match fetch {
        Some(body) => body@,
        None => error_payload(),
    }
}

/// The payloads of all frames a voice connection sends: exactly one,
/// determined by the fetch outcome.
pub open spec fn voice_outputs(fetch: Option<String>) -> Seq<Seq<char>> {
    seq![voice_payload(fetch)]
}

/// The outbound frame carrying the ephemeral session key, given the outcome
/// of the fetch (the upstream response body, or `None` for any failure).
pub fn get_ephemeral_key(fetch: Option<String>) -> (m: Frame)
    ensures
        m is Text,
        payload(m) == voice_payload(fetch),
{
    match fetch {
        Some(body) => Frame::Text(body),
        None => Frame::Text(String::from_str("Error")),
    }
}

/// One full run of the voice channel, with the fetch outcome supplied as a
/// value: exactly one outbound text frame is produced — the upstream body on
/// success, the `"Error"` sentinel on failure — and no inbound frame is ever
/// read.
pub fn handle_voice(fetch: Option<String>) -> (out: Vec<Frame>)
    ensures
        out@.len() == 1,
        all_text(out@),
        payloads(out@) == voice_outputs(fetch),
{
    let mut out: Vec<Frame> = Vec::new();
    out.push(get_ephemeral_key(fetch));
    proof {
        assert(payloads(out@) =~= voice_outputs(fetch));
    }
    out
}

/// The voice channel produces no conversational reply of its own.
pub fn voice_response() -> (r: String)
    ensures
        r@ == Seq::<char>::empty(),
{
    String::new()
}

} // verus!
