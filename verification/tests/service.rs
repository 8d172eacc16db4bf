use omni_stream::config::{
    build_cors, decode_aes_key, load_config, ConfigError, CorsPolicy, EnvVars,
};
use omni_stream::http::{
    bad_gateway, header_text, pass_status, sendable, valid_header_value,
};
use omni_stream::json::Json;
use omni_stream::kucoin::{kucoin_bullet, kucoin_failure, kucoin_request, KucoinFailure};
use omni_stream::phemex::{relay, RelayMessage};
use omni_stream::service::{healthz, root};
use omni_stream::text::chars_of;

fn vars() -> EnvVars {
    EnvVars {
        port: None,
        nim_base: None,
        kucoin_base: None,
        phemex_ws: None,
        phemex_origin: None,
        redis_url: Some("redis://r".to_string()),
        aes_secret_hex: Some("00".to_string()),
        backend_url: None,
    }
}

#[test]
fn root_names_the_service() {
    assert_eq!(root().to_text(), r#"{"ok":true,"service":"omni-stream-backend-rust"}"#);
}

#[test]
fn health_check_lists_the_routes() {
    assert_eq!(
        healthz(1768000000).to_text(),
        r#"{"ok":true,"routes":{"kucoin":"/api/kucoin/bullet-public","nim":"/api/nim/chat/completions","phemex_ws":"/api/ws/phemex"},"service":"omni-stream-backend-rust","time":1768000000}"#
    );
    assert_eq!(healthz(u64::MAX).get("time").unwrap().to_text(), "18446744073709551615");
}

#[test]
fn defaults_of_the_settings() {
    let c = load_config(vars()).unwrap();
    assert_eq!(c.port, 3000);
    assert_eq!(c.nim_base, "https://integrate.api.nvidia.com/v1");
    assert_eq!(c.kucoin_base, "https://api.kucoin.com");
    assert_eq!(c.phemex_ws, "wss://vapi.phemex.com/ws");
    assert_eq!(c.phemex_origin, "https://phemex.com");
    assert_eq!(c.backend_url, "http://localhost:8080");
    assert_eq!(c.redis_url, "redis://r");
    assert_eq!(c.aes_secret_hex, "00");
}

#[test]
fn settings_override_the_defaults() {
    let mut v = vars();
    v.port = Some("8081".to_string());
    v.nim_base = Some("http://n".to_string());
    v.kucoin_base = Some("http://k".to_string());
    v.phemex_ws = Some("ws://p".to_string());
    v.phemex_origin = Some("http://o".to_string());
    v.backend_url = Some("http://b/".to_string());
    let c = load_config(v).unwrap();
    assert_eq!(c.port, 8081);
    assert_eq!(c.nim_base, "http://n");
    assert_eq!(c.kucoin_base, "http://k");
    assert_eq!(c.phemex_ws, "ws://p");
    assert_eq!(c.phemex_origin, "http://o");
    assert_eq!(c.backend_url, "http://b/");
}

#[test]
fn unreadable_port_falls_back() {
    let mut v = vars();
    v.port = Some("70000".to_string());
    assert_eq!(load_config(v).unwrap().port, 3000);
    let mut v = vars();
    v.port = Some("http".to_string());
    assert_eq!(load_config(v).unwrap().port, 3000);
}

#[test]
fn missing_settings_are_fatal() {
    let mut v = vars();
    v.redis_url = None;
    v.aes_secret_hex = None;
    let e = load_config(v).unwrap_err();
    assert_eq!(e, ConfigError::MissingRedisUrl);
    assert_eq!(e.message(), "[FATAL] REDIS_URL is missing!");
    let mut v = vars();
    v.aes_secret_hex = None;
    let e = load_config(v).unwrap_err();
    assert_eq!(e, ConfigError::MissingAesSecret);
    assert_eq!(e.message(), "[FATAL] AES_SECRET_HEX is missing!");
}

#[test]
fn secret_is_read_as_hex() {
    assert_eq!(decode_aes_key("00ff0aF0").unwrap(), vec![0, 255, 10, 240]);
    assert_eq!(decode_aes_key("").unwrap(), Vec::<u8>::new());
    let e = decode_aes_key("abc").unwrap_err();
    assert_eq!(e, ConfigError::InvalidAesSecret);
    assert_eq!(e.message(), "[FATAL] AES_SECRET_HEX is not valid hex!");
    assert!(decode_aes_key("zz").is_err());
    assert!(decode_aes_key("é").is_err());
}

#[test]
fn empty_and_star_allow_every_origin() {
    for raw in ["", "*", " , ,", "https://a, *", " * "] {
        assert_eq!(build_cors(raw), CorsPolicy::Permissive, "{raw}");
    }
}

#[test]
fn named_origins_are_the_only_ones() {
    let policy = build_cors(
        " https://frontend-crypto-terminal.onrender.com ,,https://yourname.github.io,bad\u{1}one,*x",
    );
    match policy {
        CorsPolicy::Restricted { origins, methods, headers } => {
            assert_eq!(
                origins,
                vec![
                    "https://frontend-crypto-terminal.onrender.com",
                    "https://yourname.github.io",
                    "*x",
                ]
            );
            assert_eq!(methods, vec!["GET", "POST", "OPTIONS"]);
            assert_eq!(headers, vec!["authorization", "content-type"]);
        }
        CorsPolicy::Permissive => panic!("restricted"),
    }
}

#[test]
fn bad_gateway_reports_the_error() {
    let reply = bad_gateway("a \"quoted\"\ncause");
    assert_eq!(reply.status, 502);
    assert_eq!(reply.body.to_text(), r#"{"error":"a \"quoted\"\ncause","ok":false}"#);
}

#[test]
fn header_values_as_text() {
    assert_eq!(header_text(&b"text/html;\tq=1".to_vec()), Some("text/html;\tq=1".to_string()));
    assert_eq!(header_text(&vec![]), Some(String::new()));
    assert_eq!(header_text(&vec![0x7f]), None);
    assert_eq!(header_text(&vec![0xe9]), None);
    assert_eq!(header_text(&b"a\nb".to_vec()), None);
}

#[test]
fn header_values_agree_with_the_http_crate() {
    for b in 0..=255u8 {
        let value = axum::http::HeaderValue::from_bytes(&[b]);
        assert_eq!(valid_header_value(&vec![b]), value.is_ok());
        if let Ok(value) = value {
            let text = value.to_str().ok().map(|s| s.to_string());
            assert_eq!(header_text(&vec![b]), text);
        }
    }
    for s in ["a", "\t", "\u{0}", "\u{7f}", "é", "\u{80}", "a\r", " "] {
        assert_eq!(sendable(&chars_of(s)), axum::http::HeaderValue::from_str(s).is_ok(), "{s:?}");
    }
}

#[test]
fn statuses_pass_where_they_are_statuses() {
    assert_eq!(pass_status(200), 200);
    assert_eq!(pass_status(100), 100);
    assert_eq!(pass_status(999), 999);
    assert_eq!(pass_status(99), 500);
    assert_eq!(pass_status(1000), 500);
}

#[test]
fn kucoin_is_asked_for_a_token() {
    let r = kucoin_request("https://api.kucoin.com");
    assert_eq!(r.url, "https://api.kucoin.com/api/v1/bullet-public");
    assert_eq!(r.body, "{}");
    assert_eq!(
        r.headers,
        vec![
            ("Content-Type".to_string(), "application/json".to_string()),
            ("User-Agent".to_string(), "OmniStream/1.0".to_string()),
        ]
    );
}

#[test]
fn kucoin_response_passes_unchanged() {
    let r = kucoin_bullet(429, Some(b"text/plain".to_vec()), vec![0, 255, 10]);
    assert_eq!(r.status, 429);
    assert_eq!(r.content_type, b"text/plain");
    assert_eq!(r.cache_control, "no-store");
    assert_eq!(r.body, vec![0, 255, 10]);
    assert_eq!(kucoin_bullet(200, None, vec![]).content_type, b"application/json");
    assert_eq!(kucoin_bullet(200, Some(vec![10]), vec![]).content_type, b"application/json");
}

#[test]
fn kucoin_failures_are_bad_gateways() {
    for (failure, text) in [
        (KucoinFailure::Request, "KuCoin request failed: x"),
        (KucoinFailure::BodyRead, "KuCoin body read failed: x"),
        (KucoinFailure::ResponseBuild, "response build failed: x"),
    ] {
        let r = kucoin_failure(failure, "x");
        assert_eq!(r.status, 502);
        assert_eq!(r.body.get("error").unwrap().as_text().unwrap(), text);
        assert_eq!(r.body.get("ok"), Some(&Json::Bool(false)));
    }
}

#[test]
fn phemex_messages_pass_unchanged() {
    assert_eq!(
        relay(RelayMessage::Text("t".to_string())),
        Some(RelayMessage::Text("t".to_string()))
    );
    assert_eq!(relay(RelayMessage::Binary(vec![1])), Some(RelayMessage::Binary(vec![1])));
    assert_eq!(relay(RelayMessage::Ping(vec![2])), Some(RelayMessage::Ping(vec![2])));
    assert_eq!(relay(RelayMessage::Pong(vec![3])), Some(RelayMessage::Pong(vec![3])));
    assert_eq!(
        relay(RelayMessage::Close(Some((1000, "bye".to_string())))),
        Some(RelayMessage::Close(Some((1000, "bye".to_string()))))
    );
    assert_eq!(relay(RelayMessage::Close(None)), Some(RelayMessage::Close(None)));
    assert_eq!(relay(RelayMessage::Frame), None);
}
