//! The text channel: one outbound text frame per inbound frame, in order,
//! until the peer disconnects or a receive error occurs.

use vstd::prelude::*;
use vstd::string::StringExecFns;

use crate::frame::{Frame, RecvEvent, null_payload, payload};

verus! {

/// The payload of the reply to one inbound frame, given the responder's
/// answer for it: the answer itself for an answered text frame, and the
/// `"null"` sentinel for a non-text frame (the responder is not consulted)
/// or for a text frame the responder could not answer.
pub open spec fn reply_payload(prompt: Frame, reply: Option<String>) -> Seq<char> {
    match prompt {
        Frame::Text(_) => match reply {
            Some(s) => s@,
            None => null_payload(),
        },
        Frame::Other => null_payload(),
    }
}

/// How many times a run over `events` consults the responder: once per
/// inbound text frame, stopping at the first end-of-stream or receive error.
pub open spec fn queries(events: Seq<RecvEvent>) -> nat
    decreases events.len(),
{
    if events.len() == 0 {
        0
    } else {
        match events[0] {
            RecvEvent::Frame(f) => if f is Text {
                1 + queries(events.skip(1))
            } else {
                queries(events.skip(1))
            },
            RecvEvent::FrameError => 0,
            RecvEvent::Closed => 0,
        }
    }
}

/// The payloads of the outbound frames a run of the text relay sends, in
/// order, given the receive-side events and the responder's successive
/// answers (consumed one per text frame). The run stops — sending nothing
/// further — at the first end-of-stream or receive error.
pub open spec fn outputs(events: Seq<RecvEvent>, replies: Seq<Option<String>>) -> Seq<Seq<char>>
    decreases events.len(),
{
    if events.len() == 0 {
        Seq::empty()
    } else {
        match events[0] {
            RecvEvent::Frame(f) => if f is Text {
                let r: Option<String> = if replies.len() > 0 {
                    replies[0]
                } else {
                    None
                };
                let rest = if replies.len() > 0 {
                    replies.skip(1)
                } else {
                    replies
                };
                seq![reply_payload(f, r)] + outputs(events.skip(1), rest)
            } else {
                seq![null_payload()] + outputs(events.skip(1), replies)
            },
            RecvEvent::FrameError => Seq::empty(),
            RecvEvent::Closed => Seq::empty(),
        }
    }
}

/// The payloads of a sequence of frames.
pub open spec fn payloads(frames: Seq<Frame>) -> Seq<Seq<char>> {
    frames.map_values(|f: Frame| payload(f))
}

/// Whether every frame in the sequence is a text frame.
pub open spec fn all_text(frames: Seq<Frame>) -> bool {
    forall|i: int| 0 <= i < frames.len() ==> frames[i] is Text
}

/// The `"null"` sentinel as an outbound payload.
fn null_text() -> (s: String)
    ensures
        s@ == null_payload(),
{
    String::from_str("null")
}

/// The reply to one inbound frame: the responder's answer (to be obtained
/// for a text frame only) wrapped into a text frame, or the `"null"`
/// sentinel for a non-text frame or an unanswered request.
pub fn text_response(prompt: &Frame, reply: Option<String>) -> (m: Frame)
    ensures
        m is Text,
        payload(m) == reply_payload(*prompt, reply),
{
    match prompt {
        Frame::Text(_) => match reply {
            Some(s) => Frame::Text(s),
            None => Frame::Text(null_text()),
        },
        Frame::Other => Frame::Text(null_text()),
    }
}

/// One full run of the text relay, with the connection's receive side
/// pre-collected into `events` and the responder's successive answers
/// supplied in `replies` (consumed one per text frame): replies once per
/// inbound frame, in order, and stops at the first end-of-stream or
/// receive error, sending nothing further.
pub fn handle_text(events: &Vec<RecvEvent>, replies: &Vec<Option<String>>) -> (out: Vec<Frame>)
    requires
        replies@.len() >= queries(events@),
    ensures
        all_text(out@),
        payloads(out@) == outputs(events@, replies@),
{
    let n = events.len();
    let rlen = replies.len();
    let mut out: Vec<Frame> = Vec::new();
    let mut i: usize = 0;
    let mut j: usize = 0;
    proof {
        assert(events@.skip(0) =~= events@);
        assert(replies@.skip(0) =~= replies@);
        assert(payloads(out@) + outputs(events@, replies@) =~= outputs(events@, replies@));
    }
    while i < n
        invariant
            n == events@.len(),
            rlen == replies@.len(),
            i <= n,
            j <= rlen,
            replies@.len() - j >= queries(events@.skip(i as int)),
            all_text(out@),
            outputs(events@, replies@) =~= payloads(out@) + outputs(
                events@.skip(i as int),
                replies@.skip(j as int),
            ),
        decreases n - i,
    {
        proof {
            assert(events@.skip(i as int)[0] == events@[i as int]);
            assert(events@.skip(i as int).skip(1) =~= events@.skip(i as int + 1));
        }
        let ghost pending = outputs(events@.skip(i as int), replies@.skip(j as int));
        match events[i].frame() {
            None => {
                // End of stream or receive error: the run terminates here
                // and nothing further is sent.
                proof {
                    assert(pending =~= Seq::<Seq<char>>::empty());
                    assert(payloads(out@) + pending =~= payloads(out@));
                }
                return out;
            },
            Some(f) => {
                let reply: Option<String> = if f.is_text() {
                    proof {
                        assert(queries(events@.skip(i as int)) >= 1);
                        assert(replies@.skip(j as int)[0] == replies@[j as int]);
                        assert(replies@.skip(j as int).skip(1) =~= replies@.skip(j as int + 1));
                    }
                    let r: Option<String> = match &replies[j] {
                        Some(s) => Some(s.clone()),
                        None => None,
                    };
                    j += 1;
                    r
                } else {
                    None
                };
                let m = text_response(f, reply);
                proof {
                    assert(pending =~= seq![payload(m)] + outputs(
                        events@.skip(i as int + 1),
                        replies@.skip(j as int),
                    ));
                }
                out.push(m);
                proof {
                    let prev = out@.drop_last();
                    assert(payloads(out@) =~= payloads(prev) + seq![payload(m)]);
                    assert(payloads(prev) + pending =~= payloads(out@) + outputs(
                        events@.skip(i as int + 1),
                        replies@.skip(j as int),
                    ));
                }
                i += 1;
            },
        }
    }
    proof {
        assert(events@.skip(n as int) =~= Seq::<RecvEvent>::empty());
        assert(outputs(events@.skip(n as int), replies@.skip(j as int)) =~= Seq::<
            Seq<char>,
        >::empty());
        assert(payloads(out@) + Seq::<Seq<char>>::empty() =~= payloads(out@));
    }
    out
}

/// Whether every event in the sequence is an inbound text frame.
pub open spec fn all_text_events(events: Seq<RecvEvent>) -> bool {
    forall|i: int|
        0 <= i < events.len() ==> (#[trigger] events[i] matches RecvEvent::Frame(f) && f is Text)
}

/// Request/response pairing on the text channel: a run over N inbound text
/// frames consults the responder exactly N times and sends exactly N
/// outbound payloads, in order, the i-th being the wrapped answer to the
/// i-th request.
pub proof fn lemma_text_pairing(events: Seq<RecvEvent>, replies: Seq<Option<String>>)
    requires
        all_text_events(events),
        replies.len() >= events.len(),
    ensures
        queries(events) == events.len(),
        outputs(events, replies).len() == events.len(),
        forall|i: int| 0 <= i < events.len() ==> outputs(events, replies)[i] == reply_payload(
            events[i]->0,
            replies[i],
        ),
    decreases events.len(),
{
    if events.len() > 0 {
        assert(events[0] matches RecvEvent::Frame(f) && f is Text);
        assert(all_text_events(events.skip(1))) by {
            assert(forall|i: int|
                0 <= i < events.skip(1).len() ==> events.skip(1)[i] == events[i + 1]);
        }
        lemma_text_pairing(events.skip(1), replies.skip(1));
        assert(forall|i: int| 1 <= i < events.len() ==> events.skip(1)[i - 1] == events[i]);
        assert(forall|i: int| 1 <= i < replies.len() ==> replies.skip(1)[i - 1] == replies[i]);
    }
}

/// A non-text inbound frame is answered at once with the `"null"` sentinel,
/// without consulting the responder.
pub proof fn lemma_non_text_gets_null(events: Seq<RecvEvent>, replies: Seq<Option<String>>)
    requires
        events.len() > 0,
        events[0] matches RecvEvent::Frame(f) && f is Other,
    ensures
        outputs(events, replies).len() > 0,
        outputs(events, replies)[0] == null_payload(),
        queries(events) == queries(events.skip(1)),
{
}

/// Disconnection or a receive error terminates the run: no further reply is
/// sent and the responder is not consulted again.
pub proof fn lemma_disconnect_sends_nothing(events: Seq<RecvEvent>, replies: Seq<Option<String>>)
    requires
        events.len() > 0,
        events[0] is Closed || events[0] is FrameError,
    ensures
        outputs(events, replies) == Seq::<Seq<char>>::empty(),
        queries(events) == 0,
{
}

/// A whole text session: N inbound text frames followed by disconnection
/// (or a receive error) consult the responder exactly N times and produce
/// exactly N outbound payloads, in order, the i-th wrapping the responder's
/// i-th answer — and nothing after the session ends.
pub proof fn lemma_text_session(
    prefix: Seq<RecvEvent>,
    last: RecvEvent,
    replies: Seq<Option<String>>,
)
    requires
        all_text_events(prefix),
        last is Closed || last is FrameError,
        replies.len() >= prefix.len(),
    ensures
        queries(prefix.push(last)) == prefix.len(),
        outputs(prefix.push(last), replies).len() == prefix.len(),
        forall|i: int| 0 <= i < prefix.len() ==> outputs(prefix.push(last), replies)[i]
            == reply_payload(prefix[i]->0, replies[i]),
    decreases prefix.len(),
{
    let events = prefix.push(last);
    if prefix.len() == 0 {
        assert(events[0] == last);
    } else {
        assert(events[0] == prefix[0]);
        assert(prefix[0] matches RecvEvent::Frame(f) && f is Text);
        assert(events.skip(1) =~= prefix.skip(1).push(last));
        assert(all_text_events(prefix.skip(1))) by {
            assert(forall|i: int|
                0 <= i < prefix.skip(1).len() ==> prefix.skip(1)[i] == prefix[i + 1]);
        }
        lemma_text_session(prefix.skip(1), last, replies.skip(1));
        assert(forall|i: int| 1 <= i < prefix.len() ==> prefix.skip(1)[i - 1] == prefix[i]);
        assert(forall|i: int| 1 <= i < replies.len() ==> replies.skip(1)[i - 1] == replies[i]);
    }
}

/// No caching and no assumed determinism: the same prompt sent twice
/// consults the responder twice, and the two replies are wrapped
/// independently, whatever each answer was.
pub proof fn lemma_repeated_prompt_independent(
    prompt: String,
    r1: Option<String>,
    r2: Option<String>,
)
    ensures
        ({
            let events = seq![
                RecvEvent::Frame(Frame::Text(prompt)),
                RecvEvent::Frame(Frame::Text(prompt)),
            ];
            let replies = seq![r1, r2];
            &&& queries(events) == 2
            &&& outputs(events, replies) == seq![
                reply_payload(Frame::Text(prompt), r1),
                reply_payload(Frame::Text(prompt), r2),
            ]
        }),
{
    let events = seq![
        RecvEvent::Frame(Frame::Text(prompt)),
        RecvEvent::Frame(Frame::Text(prompt)),
    ];
    let replies = seq![r1, r2];
    assert(all_text_events(events));
    lemma_text_pairing(events, replies);
    assert(outputs(events, replies) =~= seq![
        reply_payload(Frame::Text(prompt), r1),
        reply_payload(Frame::Text(prompt), r2),
    ]);
}

} // verus!
