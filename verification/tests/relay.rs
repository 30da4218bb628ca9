use chat_relay::frame::{Frame, RecvEvent};
use chat_relay::relay::{handle_text, text_response};
use chat_relay::session::{bearer_header, session_model, session_url, session_voice};
use chat_relay::voice::{get_ephemeral_key, handle_voice, voice_response};

fn text(s: &str) -> RecvEvent {
    RecvEvent::Frame(Frame::Text(s.to_string()))
}

#[test]
fn one_prompt_one_reply_then_disconnect() {
    let events = vec![text("Hello"), RecvEvent::Closed];
    let replies = vec![Some("Hi there".to_string())];
    let out = handle_text(&events, &replies);
    assert_eq!(out, vec![Frame::Text("Hi there".to_string())]);
}

#[test]
fn replies_are_paired_in_order() {
    let events = vec![text("a"), text("b"), text("c"), RecvEvent::Closed];
    let replies = vec![
        Some("ra".to_string()),
        Some("rb".to_string()),
        Some("rc".to_string()),
    ];
    let out = handle_text(&events, &replies);
    assert_eq!(
        out,
        vec![
            Frame::Text("ra".to_string()),
            Frame::Text("rb".to_string()),
            Frame::Text("rc".to_string()),
        ]
    );
}

#[test]
fn non_text_frame_gets_null_sentinel() {
    let events = vec![RecvEvent::Frame(Frame::Other)];
    let replies = vec![];
    let out = handle_text(&events, &replies);
    assert_eq!(out, vec![Frame::Text("null".to_string())]);
}

#[test]
fn unanswered_prompt_gets_null_sentinel() {
    let events = vec![text("Hello"), RecvEvent::Closed];
    let replies = vec![None];
    let out = handle_text(&events, &replies);
    assert_eq!(out, vec![Frame::Text("null".to_string())]);
}

#[test]
fn disconnect_sends_nothing() {
    let events = vec![RecvEvent::Closed];
    let replies = vec![];
    assert_eq!(handle_text(&events, &replies), vec![]);
}

#[test]
fn receive_error_sends_nothing() {
    let events = vec![RecvEvent::FrameError];
    let replies = vec![];
    assert_eq!(handle_text(&events, &replies), vec![]);
}

#[test]
fn receive_error_stops_mid_stream() {
    let events = vec![text("a"), RecvEvent::FrameError, text("b")];
    let replies = vec![Some("ra".to_string()), Some("rb".to_string())];
    let out = handle_text(&events, &replies);
    assert_eq!(out, vec![Frame::Text("ra".to_string())]);
}

#[test]
fn mixed_frames_keep_pairing() {
    let events = vec![
        text("a"),
        RecvEvent::Frame(Frame::Other),
        text("b"),
        RecvEvent::Closed,
    ];
    let replies = vec![Some("ra".to_string()), Some("rb".to_string())];
    let out = handle_text(&events, &replies);
    assert_eq!(
        out,
        vec![
            Frame::Text("ra".to_string()),
            Frame::Text("null".to_string()),
            Frame::Text("rb".to_string()),
        ]
    );
}

#[test]
fn repeated_prompt_wraps_each_reply_independently() {
    let events = vec![text("same"), text("same"), RecvEvent::Closed];
    let replies = vec![Some("first".to_string()), Some("second".to_string())];
    let out = handle_text(&events, &replies);
    assert_eq!(
        out,
        vec![
            Frame::Text("first".to_string()),
            Frame::Text("second".to_string()),
        ]
    );
}

#[test]
fn text_response_wraps_the_answer() {
    let prompt = Frame::Text("Hello".to_string());
    let m = text_response(&prompt, Some("Hi".to_string()));
    assert_eq!(m, Frame::Text("Hi".to_string()));
}

#[test]
fn text_response_falls_back_to_null() {
    let prompt = Frame::Text("Hello".to_string());
    assert_eq!(text_response(&prompt, None), Frame::Text("null".to_string()));
    let other = Frame::Other;
    assert_eq!(
        text_response(&other, Some("ignored".to_string())),
        Frame::Text("null".to_string())
    );
}

#[test]
fn voice_sends_upstream_body_verbatim() {
    let body = "{\"id\":\"sess_123\",\"expires_at\":1735689600}";
    let out = handle_voice(Some(body.to_string()));
    assert_eq!(out, vec![Frame::Text(body.to_string())]);
}

#[test]
fn voice_failure_sends_error_sentinel() {
    let out = handle_voice(None);
    assert_eq!(out, vec![Frame::Text("Error".to_string())]);
}

#[test]
fn ephemeral_key_frame_matches_fetch_outcome() {
    assert_eq!(
        get_ephemeral_key(Some("body".to_string())),
        Frame::Text("body".to_string())
    );
    assert_eq!(get_ephemeral_key(None), Frame::Text("Error".to_string()));
}

#[test]
fn voice_response_is_empty() {
    assert_eq!(voice_response(), String::new());
}

#[test]
fn session_request_values_are_fixed() {
    assert_eq!(session_url(), "https://api.openapi.com/v1/realtime/sessions");
    assert_eq!(session_model(), "gpt-4o-realtime-preview-2024-12-17");
    assert_eq!(session_voice(), "verse");
}

#[test]
fn bearer_header_prefixes_the_credential() {
    assert_eq!(bearer_header("abc123"), "Bearer abc123");
    assert_eq!(bearer_header(""), "Bearer ");
}

#[test]
fn frame_accessors() {
    let t = Frame::Text("hi".to_string());
    assert!(t.is_text());
    assert_eq!(t.as_text(), Some(&"hi".to_string()));
    let o = Frame::Other;
    assert!(!o.is_text());
    assert_eq!(o.as_text(), None);
}

#[test]
fn recv_event_frame_accessor() {
    let e = text("hi");
    assert_eq!(e.frame(), Some(&Frame::Text("hi".to_string())));
    assert_eq!(RecvEvent::Closed.frame(), None);
    assert_eq!(RecvEvent::FrameError.frame(), None);
}
