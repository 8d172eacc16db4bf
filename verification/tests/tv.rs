use omni_stream::candles::{du_frame, timescale_frame, Bar};
use omni_stream::http::RawHeader;
use omni_stream::json::Json;
use omni_stream::script::{SYNC_SCRIPT_HEAD, SYNC_SCRIPT_TAIL};
use omni_stream::tv_proxy::{
    process_tv_response, rules_for, tv_request_headers, FetchOutcome, FetchStep, TvFetch,
    TvResponse,
};
use omni_stream::tv_socket::{
    chart_id, chosen_chart, handshake, on_client_message, SocketMessage,
};

fn header(name: &str, value: &[u8]) -> RawHeader {
    RawHeader { name: name.to_string(), value: value.to_vec() }
}

fn script(body: &str, backend: &str) -> TvResponse {
    let headers = vec![header("content-type", b"application/javascript")];
    process_tv_response(200, &headers, body.to_string(), backend, "embed/x.js")
}

fn page(body: &str) -> String {
    let headers = vec![header("content-type", b"text/html")];
    process_tv_response(200, &headers, body.to_string(), "https://b.example/", "page").body
}

fn sync_script() -> String {
    format!("{SYNC_SCRIPT_HEAD}https://b.example{SYNC_SCRIPT_TAIL}")
}

#[test]
fn addresses_become_addresses_of_the_backend() {
    let cases = [
        ("wss://prodata.tradingview.com/socket.io/websocket?x", "wss://b.example/api/ws/tv-proxy?x"),
        ("wss://data.tradingview.com/socket.io/websocket", "wss://b.example/api/ws/tv-proxy"),
        ("wss://pushstream.tradingview.com/message-pipe-ws/public", "wss://b.example/api/ws/tv-proxy"),
        ("wss://widgetdata.tradingview.com/other", "wss://b.example/api/ws/tv-proxy/other"),
        ("wss://widgetdata-backup.tradingview.com", "wss://b.example/api/ws/tv-proxy"),
        ("https://www.tradingview-widget.com/a.js", "https://b.example/tv-proxy/a.js"),
        ("https://s3.tradingview.com/tv.js", "https://b.example/tv-proxy/tv.js"),
        ("https://s.tradingview.com", "https://b.example/tv-proxy"),
        ("https:\\/\\/s.tradingview.com\\/x", "https:\\/\\/b.example\\/tv-proxy\\/x"),
        ("src=\"//s3.tradingview.com/x\"", "src=\"//b.example/tv-proxy/x\""),
        ("//www.tradingview-widget.com", "//www.tradingview-widget.com"),
        ("https://tradingview.com/", "https://tradingview.com/"),
    ];
    for (given, want) in cases {
        assert_eq!(script(given, "https://b.example/").body, want, "{given}");
    }
}

#[test]
fn plain_backend_gets_plain_sockets() {
    let r = script("wss://data.tradingview.com https://s.tradingview.com/", "http://localhost:8080//");
    assert_eq!(r.body, "ws://localhost:8080/api/ws/tv-proxy http://localhost:8080/tv-proxy/");
}

#[test]
fn rewriting_agrees_with_replacing_one_by_one() {
    let body = "a wss://prodata.tradingview.com/socket.io/websocket b //s.tradingview.com/ \
        https://www.tradingview-widget.com/ https:\\/\\/s3.tradingview.com\\/ wss://data.tradingview.comx";
    for backend in ["http://h:1", "https://h/p", "", "https://http://x"] {
        let mut want = body.to_string();
        let rules = rules_for(backend);
        assert_eq!(rules.len(), 25);
        for rule in &rules {
            want = want.replace(&rule.from, &rule.to);
        }
        assert_eq!(script(body, backend).body, want);
    }
}

#[test]
fn no_upstream_address_is_left() {
    let body = "https://s.tradingview.comhttps://s3.tradingview.comwss://wss://data.tradingview.com\
        https://www.tradingview-widget.com/https:\\/\\/www.tradingview-widget.com";
    let out = script(body, "http://localhost:8080").body;
    assert!(!out.contains("tradingview"));
}

#[test]
fn no_upstream_address_is_left_in_a_page() {
    let body = "<a href=https://s.tradingview.com></a>https://s.tradingview.co</body>m</body>";
    let out = page(body);
    assert!(!out.contains("https://s.tradingview.com"));
    assert!(out.contains("https://s.tradingview.co\n"));
}

#[test]
fn text_without_addresses_is_kept() {
    let body = "let x = 'https://example.com/</body>';";
    assert_eq!(script(body, "http://h").body, body);
}

#[test]
fn script_goes_before_the_end_of_the_body() {
    let s = sync_script();
    assert_eq!(page("<html></head><body>x</body></html>"), format!("<html></head><body>x{s} </body></html>"));
    assert_eq!(page("</body></body>"), format!("{s} </body>{s} </body>"));
    assert_eq!(page("<head></head>x"), format!("<head>{s} </head>x"));
    assert_eq!(page("bare"), format!("bare{s}"));
    assert_eq!(page(""), "");
}

#[test]
fn script_posts_to_the_backend() {
    let s = sync_script();
    assert!(s.starts_with("\n            <script>\n                (function() {\n"));
    assert!(s.contains("fetch('https://b.example/api/chart/save', {\n"));
    assert!(s.contains("session_id: 'global_tv_state', state_json: JSON.stringify(statePayload)"));
    assert!(s.ends_with("                })();\n            </script>\n            "));
    assert_eq!(s.matches('{').count(), s.matches('}').count());
}

#[test]
fn text_is_not_cached() {
    let headers = vec![
        header("content-type", b"application/json"),
        header("cache-control", b"max-age=1"),
        header("etag", b"\"e\""),
        header("set-cookie", b"c"),
    ];
    let r = process_tv_response(200, &headers, "{}".to_string(), "http://h", "x");
    assert_eq!(r.content_type.as_deref(), Some("application/json"));
    assert_eq!(r.cache_control.as_deref(), Some("no-cache, no-store, must-revalidate"));
    assert_eq!(r.etag.as_deref(), Some("\"e\""));
    let r = process_tv_response(304, &headers, String::new(), "http://h", "x");
    assert_eq!(r.status, 304);
    assert_eq!(r.cache_control.as_deref(), Some("max-age=1"));
}

#[test]
fn other_files_pass_unchanged() {
    let headers = vec![header("content-type", b"image/png"), header("cache-control", b"max-age=1")];
    let body = "https://s.tradingview.com/ </body>".to_string();
    let r = process_tv_response(404, &headers, body.clone(), "http://h", "logo.png");
    assert_eq!(
        r,
        TvResponse {
            status: 404,
            content_type: Some("image/png".to_string()),
            cache_control: Some("max-age=1".to_string()),
            etag: None,
            body,
        }
    );
}

#[test]
fn text_and_pages_by_the_end_of_the_path() {
    for path in ["a.js", "a.css", "a.map"] {
        let r = process_tv_response(200, &vec![], "https://s.tradingview.com".to_string(), "http://h", path);
        assert_eq!(r.body, "http://h/tv-proxy");
        assert_eq!(r.content_type, None);
    }
    let r = process_tv_response(200, &vec![], "x".to_string(), "http://h", "a.html");
    assert!(r.body.contains("<script>"));
    let r = process_tv_response(200, &vec![], "x".to_string(), "http://h", "a/");
    assert_eq!(r.body, "x");
    let json = vec![header("content-type", b"application/json")];
    let r = process_tv_response(200, &json, "x".to_string(), "http://h", "a/");
    assert!(r.body.contains("<script>"));
}

#[test]
fn repeated_and_unreadable_headers() {
    let headers = vec![
        header("content-type", b"image/png"),
        header("content-type", b"text/html"),
        header("content-type", &[0xe9]),
        header("etag", &[0xe9]),
    ];
    let r = process_tv_response(200, &headers, "https://s.tradingview.com".to_string(), "http://h", "x");
    assert_eq!(r.content_type.as_deref(), Some("text/html"));
    assert_eq!(r.etag, None);
    assert_eq!(r.body, "https://s.tradingview.com");
    assert_eq!(process_tv_response(42, &vec![], String::new(), "", "").status, 500);
}

#[test]
fn upstreams_are_tried_in_order() {
    let (mut f, step) = TvFetch::begin("//embed/x.js", Some(&"v=1".to_string()));
    assert_eq!(f.clean_path(), "embed/x.js?v=1");
    assert_eq!(step, FetchStep::Fetch("https://www.tradingview-widget.com/embed/x.js?v=1".to_string()));
    assert_eq!(
        f.on_outcome(FetchOutcome::Response(404)),
        FetchStep::Fetch("https://s.tradingview.com/embed/x.js?v=1".to_string())
    );
    assert_eq!(
        f.on_outcome(FetchOutcome::NetworkError),
        FetchStep::Fetch("https://s3.tradingview.com/embed/x.js?v=1".to_string())
    );
    assert_eq!(f.on_outcome(FetchOutcome::Response(403)), FetchStep::Reply(502));
}

#[test]
fn first_answer_that_is_no_refusal_is_served() {
    for status in [200, 204, 301, 400, 429, 500] {
        let (mut f, _) = TvFetch::begin("x", None);
        f.on_outcome(FetchOutcome::Response(403));
        assert_eq!(f.on_outcome(FetchOutcome::Response(status)), FetchStep::Serve);
    }
}

#[test]
fn nothing_is_asked_for_an_empty_path() {
    assert_eq!(TvFetch::begin("", None).1, FetchStep::Reply(400));
    assert_eq!(TvFetch::begin("///", None).1, FetchStep::Reply(400));
    assert_eq!(
        TvFetch::begin("", Some(&String::new())).1,
        FetchStep::Fetch("https://www.tradingview-widget.com/?".to_string())
    );
}

#[test]
fn upstreams_are_asked_as_a_browser_would() {
    let headers = tv_request_headers();
    let names: Vec<&str> = headers.iter().map(|h| h.0.as_str()).collect();
    assert_eq!(
        names,
        vec![
            "User-Agent", "Accept", "Accept-Language", "Referer", "Sec-Fetch-Dest",
            "Sec-Fetch-Mode", "Sec-Fetch-Site", "Sec-Ch-Ua", "Sec-Ch-Ua-Mobile",
            "Sec-Ch-Ua-Platform",
        ]
    );
    assert_eq!(headers[7].1, "\"Chromium\";v=\"126\", \"Google Chrome\";v=\"126\", \"Not-A.Brand\";v=\"8\"");
}

#[test]
fn session_is_opened_with_two_messages() {
    let (open, session) = handshake(1768000000123);
    assert_eq!(
        open,
        "0{\"sid\":\"sid_1768000000123\",\"upgrades\":[],\"pingInterval\":25000,\"pingTimeout\":5000}"
    );
    let json = "{\"session_id\":\"cs_1768000000123\",\"timestamp\":1768000000123,\"name\":\"crypto-terminal\",\"premium\":false}";
    assert_eq!(session, format!("~m~{}~m~{}", json.len(), json));
}

fn text(s: &str) -> SocketMessage {
    SocketMessage::Text(s.to_string())
}

#[test]
fn understood_messages_are_sent_back() {
    for s in ["~m~4~m~~h~1", "x resolve_symbol y", "create_series", "modify_series"] {
        let step = on_client_message(text(s));
        assert_eq!(step.reply, Some(text(s)));
        assert_eq!(step.chart_id, None);
        assert!(!step.done);
    }
    assert_eq!(on_client_message(text("set_auth_token")).reply, None);
}

#[test]
fn created_chart_is_announced() {
    let s = r#"~m~47~m~{"m":"chart_create_session","p":["cs_abc",""]}"#;
    let step = on_client_message(text(s));
    assert_eq!(step.chart_id.as_deref(), Some("cs_abc"));
    assert_eq!(step.reply, Some(text(s)));
    assert!(!step.done);
    let heartbeat = r#"~h~ {"m":"chart_create_session","p":["cs_abc",""]}"#;
    assert_eq!(on_client_message(text(heartbeat)).chart_id, None);
    let series = r#"{"m":"create_series","p":["cs_abc","sds_1"]}"#;
    assert_eq!(on_client_message(text(series)).chart_id, None);
}

#[test]
fn chart_without_a_name_is_not_announced() {
    assert_eq!(chart_id("chart_create_session"), None);
    assert_eq!(chart_id(r#"{"m":"chart_create_session","p":[]}"#), None);
    assert_eq!(chart_id(r#"{"m":"chart_create_session","p":["cs_abc"#), None);
    assert_eq!(chart_id(r#"{"m":"chart_create_session","p":[""#), None);
    let step = on_client_message(text(r#"{"m":"chart_create_session","p":[]}"#));
    assert_eq!(step.chart_id, None);
    assert!(step.reply.is_some());
}

#[test]
fn chart_names_are_taken_whole() {
    assert_eq!(chart_id(r#""p":["""#), Some(String::new()));
    assert_eq!(chart_id(r#""p":["a"]"#), Some("a".to_string()));
    assert_eq!(chart_id(r#""p":["é⚠"]"#), Some("é⚠".to_string()));
    assert_eq!(chart_id(r#"{"p":["cs_1"],"p":["cs_2"]}"#), Some("cs_1".to_string()));
}

#[test]
fn first_chart_is_kept() {
    let mut announced = Vec::new();
    for name in ["cs_abc", "cs_def"] {
        let s = format!("{{\"m\":\"chart_create_session\",\"p\":[\"{name}\",\"\"]}}");
        announced.extend(on_client_message(text(&s)).chart_id);
    }
    assert_eq!(announced, vec!["cs_abc", "cs_def"]);
    let chart = chosen_chart(announced.into_iter().next());
    let series = timescale_frame(&chart, vec![]);
    assert!(series.contains(r#""p":["cs_abc",{"#));
    let update = du_frame(&chart, vec![], Json::Null);
    assert!(update.contains(r#""p":["cs_abc",{"#));
}

/// The payload of a frame, found by counting its bytes.
fn payload(frame: &str) -> &str {
    let mut parts = frame.splitn(4, "~m~");
    assert_eq!(parts.next(), Some(""));
    let n: usize = parts.next().unwrap().parse().unwrap();
    let rest = &frame[frame.len() - n..];
    assert_eq!(frame, format!("~m~{n}~m~{rest}"));
    rest
}

#[test]
fn framed_payloads_are_json() {
    let session = Json::parse(payload(&handshake(1768000000123).1)).unwrap();
    assert_eq!(session.get("session_id").unwrap().as_text().unwrap(), "cs_1768000000123");
    assert_eq!(session.get("timestamp").unwrap().as_integer(), Some(1768000000123));
    assert_eq!(session.get("premium"), Some(&Json::Bool(false)));
    for x in ["1.5", "0.1", "-0.0", "5e-324", "1.7976931348623157e308", "null"] {
        let value = || Json::parse(x).unwrap();
        let bars = vec![Some(Bar { index: 1, values: vec![value()] })];
        assert!(Json::parse(payload(&timescale_frame("é \" \\", bars))).is_some());
        let update = du_frame("é \n", vec![value()], value());
        assert!(Json::parse(payload(&update)).is_some());
    }
}

#[test]
fn pings_are_answered_and_closing_ends() {
    let step = on_client_message(SocketMessage::Ping(vec![1, 2]));
    assert_eq!(step.reply, Some(SocketMessage::Pong(vec![1, 2])));
    assert!(!step.done);
    let step = on_client_message(SocketMessage::Close);
    assert_eq!(step.reply, None);
    assert!(step.done);
    assert_eq!(on_client_message(SocketMessage::Binary(vec![1])).reply, None);
    assert_eq!(on_client_message(SocketMessage::Pong(vec![1])).reply, None);
}

#[test]
fn chart_for_updates() {
    assert_eq!(chosen_chart(Some("cs_1".to_string())), "cs_1");
    assert_eq!(chosen_chart(None), "cs_local");
}
