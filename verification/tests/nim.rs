use omni_stream::json::Json;
use omni_stream::nim::{
    backend_error, connected, nim_reply, nim_request, nim_response_headers, NimEvent, NimReply,
    NimState,
};

fn texts(sent: Vec<Vec<u8>>) -> Vec<String> {
    sent.into_iter().map(|b| String::from_utf8(b).unwrap()).collect()
}

fn report(message: &str) -> Vec<String> {
    vec![
        format!("event: error\ndata: {{\"error\":\"{message}\",\"ok\":false}}\n\n"),
        format!("data: {{\"choices\":[{{\"delta\":{{\"content\":\"\\n\\n⚠ {message}\"}}}}]}}\n\n"),
        "data: [DONE]\n\n".to_string(),
    ]
}

#[test]
fn completion_request() {
    let payload = Json::parse(r#"{"stream": true, "model": "m"}"#).unwrap();
    let r = nim_request("https://n/v1", Some(b"Bearer nvapi-x".to_vec()), &payload);
    assert_eq!(r.url, "https://n/v1/chat/completions");
    assert_eq!(r.body, r#"{"model":"m","stream":true}"#);
    assert_eq!(r.authorization, Some(b"Bearer nvapi-x".to_vec()));
    let names: Vec<&str> = r.headers.iter().map(|h| h.1.as_str()).collect();
    assert_eq!(names, vec!["application/json", "text/event-stream", "OmniStream/1.0"]);
    assert_eq!(nim_request("b", None, &Json::Null).authorization, None);
    assert_eq!(nim_request("b", Some(vec![b'a', 13]), &Json::Null).authorization, None);
}

#[test]
fn stream_headers() {
    assert_eq!(
        nim_response_headers(),
        vec![
            ("Content-Type".to_string(), "text/event-stream".to_string()),
            ("Cache-Control".to_string(), "no-cache, no-transform".to_string()),
            ("X-Accel-Buffering".to_string(), "no".to_string()),
        ]
    );
    assert_eq!(connected(), b": connected\n\n");
}

#[test]
fn stream_opens_with_success() {
    match nim_reply(None) {
        NimReply::Stream { status, headers, first } => {
            assert_eq!(status, 200);
            assert_eq!(headers, nim_response_headers());
            assert_eq!(first, b": connected\n\n");
        }
        NimReply::Failure(_) => panic!("a stream"),
    }
}

#[test]
fn unreached_upstream_is_a_bad_gateway() {
    match nim_reply(Some("no route".to_string())) {
        NimReply::Failure(reply) => {
            assert_eq!(reply.status, 502);
            assert_eq!(
                reply.body.to_text(),
                r#"{"error":"NIM request failed: no route","ok":false}"#
            );
        }
        NimReply::Stream { .. } => panic!("no stream"),
    }
}

#[test]
fn report_gives_the_message_back() {
    for message in ["", "boom", "\"q\" \\ \n\n\r\n\u{0}\u{7f}\u{2028}é⚠"] {
        let events = texts(backend_error(message));
        let data = events[0].strip_prefix("event: error\ndata: ").unwrap().strip_suffix("\n\n");
        let data = data.unwrap();
        assert!(!data.contains('\n') && !data.contains('\r'));
        let named = Json::parse(data).unwrap();
        assert_eq!(named.get("error").unwrap().as_text().unwrap(), message);
        let data = events[1].strip_prefix("data: ").unwrap().strip_suffix("\n\n").unwrap();
        assert!(!data.contains('\n') && !data.contains('\r'));
        let shown = Json::parse(data).unwrap();
        let choice = shown.get("choices").unwrap().at(0).unwrap();
        let content = choice.get("delta").unwrap().get("content").unwrap();
        assert_eq!(content.as_text().unwrap(), &format!("\n\n⚠ {message}"));
    }
}

#[test]
fn error_report() {
    assert_eq!(texts(backend_error("boom")), report("boom"));
}

#[test]
fn each_report_is_one_event() {
    for event in texts(backend_error("two\n\nlines\r\nand \"more\"")) {
        assert!(event.ends_with("\n\n"));
        assert_eq!(event.find("\n\n"), Some(event.len() - 2));
    }
}

#[test]
fn chunks_pass_between_signs_of_life() {
    let mut s = NimState::Waiting;
    assert_eq!(texts(s.on_event(NimEvent::Tick)), vec![": ping\n\n"]);
    assert!(s.on_event(NimEvent::Chunk(vec![1])).is_empty());
    assert!(s.on_event(NimEvent::Answered(200)).is_empty());
    assert_eq!(s, NimState::Streaming);
    assert_eq!(s.on_event(NimEvent::Chunk(vec![0, 255])), vec![vec![0, 255]]);
    assert_eq!(texts(s.on_event(NimEvent::Tick)), vec![": ping\n\n"]);
    assert_eq!(s.on_event(NimEvent::Chunk(vec![])), vec![Vec::<u8>::new()]);
    assert!(s.on_event(NimEvent::StreamEnded).is_empty());
    assert_eq!(s, NimState::Closed);
}

#[test]
fn whole_runs() {
    let run = |events: Vec<NimEvent>| {
        let mut s = NimState::Waiting;
        let sent: Vec<Vec<u8>> = events.into_iter().flat_map(|e| s.on_event(e)).collect();
        assert_eq!(s, NimState::Closed);
        texts(sent)
    };
    let chunk = |t: &str| NimEvent::Chunk(t.as_bytes().to_vec());
    let begin = || vec![NimEvent::Tick, NimEvent::Answered(200), chunk("a"), NimEvent::Tick, chunk("b")];
    let passed = vec![": ping\n\n", "a", ": ping\n\n", "b"];
    let mut events = begin();
    events.extend([NimEvent::StreamEnded, NimEvent::Tick, chunk("c")]);
    assert_eq!(run(events), passed);
    let mut events = begin();
    events.push(NimEvent::StreamFailed("reset".to_string()));
    let mut want: Vec<String> = passed.iter().map(|s| s.to_string()).collect();
    want.extend(report("NIM stream error: reset"));
    assert_eq!(run(events), want);
    let mut events = begin();
    events.extend([NimEvent::ClientGone, chunk("c"), NimEvent::StreamFailed(String::new())]);
    assert_eq!(run(events), passed);
}

#[test]
fn failed_request_is_reported() {
    let mut s = NimState::Waiting;
    let sent = s.on_event(NimEvent::RequestFailed("no route".to_string()));
    assert_eq!(texts(sent), report("NIM request failed: no route"));
    assert_eq!(s, NimState::Closed);
}

#[test]
fn refusal_is_reported_with_its_explanation() {
    let mut s = NimState::Waiting;
    assert!(s.on_event(NimEvent::Answered(401)).is_empty());
    assert_eq!(s, NimState::Refused(401));
    assert!(s.on_event(NimEvent::Tick).is_empty());
    let sent = s.on_event(NimEvent::Explained("x".repeat(500)));
    assert_eq!(texts(sent), report(&format!("NIM returned HTTP 401: {}", "x".repeat(400))));
    assert_eq!(s, NimState::Closed);
    let mut s = NimState::Waiting;
    s.on_event(NimEvent::Answered(300));
    assert_eq!(s, NimState::Refused(300));
    let mut s = NimState::Waiting;
    s.on_event(NimEvent::Answered(299));
    assert_eq!(s, NimState::Streaming);
}

#[test]
fn broken_stream_is_reported() {
    let mut s = NimState::Streaming;
    let sent = s.on_event(NimEvent::StreamFailed("reset".to_string()));
    assert_eq!(texts(sent), report("NIM stream error: reset"));
    assert_eq!(s, NimState::Closed);
}

#[test]
fn closed_completion_is_silent() {
    let mut s = NimState::Streaming;
    assert!(s.on_event(NimEvent::ClientGone).is_empty());
    for event in [
        NimEvent::Tick,
        NimEvent::Answered(200),
        NimEvent::RequestFailed(String::new()),
        NimEvent::Explained(String::new()),
        NimEvent::Chunk(vec![1]),
        NimEvent::StreamFailed(String::new()),
        NimEvent::StreamEnded,
        NimEvent::ClientGone,
    ] {
        assert!(s.on_event(event).is_empty());
        assert_eq!(s, NimState::Closed);
    }
}
