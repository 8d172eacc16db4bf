use omni_stream::candles::{
    candle_fields, du_frame, timescale_frame, Bar, CandleFetch,
};
use omni_stream::chart::{load_chart_state, loaded_reply, save_chart_state};
use omni_stream::feed::{
    kline_fields, on_document, on_feed_event, reports_kline, FeedEvent, FeedStep, FEED_URL,
};
use omni_stream::json::Json;

fn doc(text: &str) -> Json {
    Json::parse(text).unwrap()
}

fn page(text: &str) -> Option<Vec<Json>> {
    match doc(text) {
        Json::Array(v) => Some(v),
        _ => None,
    }
}

#[test]
fn documents_are_read_and_written() {
    assert_eq!(doc(r#" {"b": [1, -2, 2.5, null], "a": "x\né"} "#).to_text(), r#"{"a":"x\né","b":[1,-2,2.5,null]}"#);
    assert_eq!(Json::parse("{"), None);
    assert_eq!(Json::parse(""), None);
    assert_eq!(doc("[]").to_text(), "[]");
}

#[test]
fn written_documents_read_back() {
    let nested = |n: usize| "[".repeat(n) + &"]".repeat(n);
    let deep = (0..126).fold(Json::Array(vec![]), |d, _| Json::Array(vec![d]));
    assert_eq!(Json::parse(&deep.to_text()), Some(deep));
    let too_deep = (0..127).fold(Json::Array(vec![]), |d, _| Json::Array(vec![d]));
    assert_eq!(too_deep.to_text(), nested(128));
    assert_eq!(Json::parse(&nested(128)), None);
    for text in ["-9223372036854775808", "18446744073709551615", "-1", "0", r#"{"a":[true,null,"é\u0000"]}"#] {
        let d = doc(text);
        assert_eq!(Json::parse(&d.to_text()), Some(d));
    }
    let reserved = Json::Object(vec![(
        "$serde_json::private::RawValue".to_string(),
        Json::text("1"),
    )]);
    assert_ne!(Json::parse(&reserved.to_text()), Some(reserved));
}

#[test]
fn documents_are_converted() {
    let d = doc(r#"{"a":[1,-2,2.5,null,true,"x"]}"#);
    let value = d.to_value();
    assert_eq!(value["a"][5], "x");
    assert_eq!(value["a"][1].as_i64(), Some(-2));
    assert_eq!(Json::from_value(value), d);
}

#[test]
fn flat_objects_are_read() {
    for text in ["{}", r#"{"é":"a b"}"#, r#"{"a":true,"b":null,"c":0,"d":"x"}"#] {
        assert!(Json::parse(text).is_some());
    }
    let big = format!("{{\"n\":{}}}", u128::MAX);
    assert!(Json::parse(&big).is_some());
}

#[test]
fn later_member_stands() {
    let twice = Json::Object(vec![
        ("a".to_string(), Json::Bool(true)),
        ("a".to_string(), Json::Null),
    ]);
    assert_eq!(twice.get("a"), Some(&Json::Null));
    assert_eq!(twice.to_text(), r#"{"a":null}"#);
    assert_eq!(doc(r#"{"a":1,"a":2}"#).get("a").unwrap().as_integer(), Some(2));
}

#[test]
fn members_and_elements() {
    let d = doc(r#"{"k":[10,"x"]}"#);
    assert_eq!(d.get("k").unwrap().at(0).unwrap().as_integer(), Some(10));
    assert_eq!(d.get("k").unwrap().at(1).unwrap().as_text().unwrap(), "x");
    assert_eq!(d.get("k").unwrap().at(2), None);
    assert_eq!(d.at(0), None);
    assert_eq!(d.get("z"), None);
    assert_eq!(Json::Null.get("k"), None);
    assert_eq!(doc("2.0").as_integer(), None);
    assert_eq!(doc("9223372036854775808").as_integer(), None);
    assert_eq!(doc("-9223372036854775808").as_integer(), Some(i64::MIN));
    assert_eq!(Json::integer(5), doc("5"));
    assert_eq!(Json::integer(u64::MAX as i128).to_text(), "18446744073709551615");
    assert_eq!(Json::text("q\"").to_text(), r#""q\"""#);
}

#[test]
fn given_text_is_saved_as_it_is() {
    let w = save_chart_state(true, &doc(r#"{"session_id":"s1","state_json":"{\"a\": 1}","state":3}"#)).unwrap();
    assert_eq!(w.key, "s1");
    assert_eq!(w.value, "{\"a\": 1}");
    assert_eq!(w.ttl_secs, 2592000);
    assert_eq!(w.status, 200);
}

#[test]
fn state_member_is_saved_as_json() {
    let w = save_chart_state(true, &doc(r#"{"session_id":7,"state_json":1,"state":{"b":2,"a":[1]}}"#)).unwrap();
    assert_eq!(w.key, "global_tv_state");
    assert_eq!(w.value, r#"{"a":[1],"b":2}"#);
}

#[test]
fn whole_payload_is_saved_where_it_has_no_state() {
    let w = save_chart_state(true, &doc(r#"{"x": true}"#)).unwrap();
    assert_eq!((w.key.as_str(), w.value.as_str()), ("global_tv_state", r#"{"x":true}"#));
    let w = save_chart_state(true, &doc("[1, 2]")).unwrap();
    assert_eq!((w.key.as_str(), w.value.as_str()), ("global_tv_state", "[1,2]"));
}

#[test]
fn unreachable_store_is_an_error() {
    assert_eq!(save_chart_state(false, &Json::Null), Err(500));
    assert_eq!(load_chart_state(false, None), Err(500));
    assert_eq!(load_chart_state(false, Some("s".to_string())), Err(500));
}

#[test]
fn loading_needs_a_session() {
    assert_eq!(load_chart_state(true, None), Err(400));
    assert_eq!(load_chart_state(true, Some("s".to_string())), Ok("s".to_string()));
    assert_eq!(loaded_reply(None).status, 404);
    assert_eq!(loaded_reply(None).state, None);
}

#[test]
fn saved_state_is_what_is_loaded() {
    let mut store = std::collections::HashMap::new();
    let w = save_chart_state(true, &doc(r#"{"session_id":"s1","state_json":"abc"}"#)).unwrap();
    store.insert(w.key, w.value);
    let key = load_chart_state(true, Some("s1".to_string())).unwrap();
    let reply = loaded_reply(store.get(&key).cloned());
    assert_eq!((reply.status, reply.state.as_deref()), (200, Some("abc")));
}

#[test]
fn pages_are_asked_for_backwards() {
    let mut h = CandleFetch::begin(1768000000123);
    assert_eq!(
        h.next_url("BTCUSDT", "1m"),
        "https://testnet.binance.vision/api/v3/klines?symbol=BTCUSDT&interval=1m&endTime=1768000000123&limit=1000"
    );
    h.on_page(page("[[100,1],[200,2]]"));
    assert!(h.next_url("A", "B").ends_with("symbol=A&interval=B&endTime=99&limit=1000"));
    h.on_page(None);
    assert!(h.next_url("A", "B").contains("&endTime=99&"));
    h.on_page(page(r#"[["x"],[50]]"#));
    assert!(h.next_url("A", "B").contains("&endTime=99&"));
    h.on_page(page("[[-5]]"));
    assert!(h.next_url("A", "B").contains("&endTime=-6&"));
    assert!(!h.is_done());
    h.on_page(page("[]"));
    assert!(h.is_done());
    let texts: Vec<String> = h.finish().iter().map(|c| c.to_text()).collect();
    assert_eq!(texts, vec!["[-5]", "[50]", "[\"x\"]", "[200,2]", "[100,1]"]);
}

#[test]
fn responses_are_read_as_pages() {
    let mut h = CandleFetch::begin(10);
    assert!(h.try_body(Some(b"[[9, \"a\"], [10]]".to_vec())));
    assert!(h.next_url("A", "B").contains("&endTime=8&"));
    assert!(h.try_body(None));
    assert!(h.try_body(Some(b"{\"code\": -1}".to_vec())));
    assert!(h.try_body(Some(vec![b'[', b'"', 0xff, b'"', b']'])));
    assert!(!h.try_body(Some(b"[[-9223372036854775808]]".to_vec())));
    assert!(h.next_url("A", "B").contains("&endTime=8&"));
    assert!(!h.is_done());
    assert!(h.try_body(Some(b"[]".to_vec())));
    assert!(h.is_done());
    let texts: Vec<String> = h.finish().iter().map(|c| c.to_text()).collect();
    assert_eq!(texts, vec!["[10]", "[9,\"a\"]"]);
}

#[test]
fn at_most_ten_pages_are_asked_for() {
    let mut h = CandleFetch::begin(0);
    let mut asked = 0;
    while !h.is_done() {
        asked += 1;
        h.on_page(if asked % 2 == 0 { None } else { page("[[7]]") });
    }
    assert_eq!(asked, 10);
    assert_eq!(h.finish().len(), 5);
}

#[test]
fn candles_need_a_time_and_five_texts() {
    let c = doc(r#"[1768000000000,"1","2","0.5","1.5","10","more"]"#);
    let f = candle_fields(&c).unwrap();
    assert_eq!(f.index, 1768000000000);
    assert_eq!(f.time, c.at(0).unwrap());
    let texts = [f.open, f.high, f.low, f.close, f.volume];
    assert_eq!(texts, ["1", "2", "0.5", "1.5", "10"]);
    assert_eq!(candle_fields(&doc(r#"[1.5,"1","2","3","4","5"]"#)).unwrap().index, 0);
    for bad in [
        "null",
        "[]",
        r#"[1,"1","2","3","4"]"#,
        r#"["1","1","2","3","4","5"]"#,
        r#"[1,1,"2","3","4","5"]"#,
        r#"[1,"1","2","3","4",5]"#,
    ] {
        assert!(candle_fields(&doc(bad)).is_none(), "{bad}");
    }
}

#[test]
fn whole_series_message() {
    let bars = vec![
        Some(Bar { index: 5, values: vec![doc("1.5"), Json::Null] }),
        None,
        Some(Bar { index: -1, values: vec![] }),
    ];
    let payload = r#"{"m":"timescale_update","p":["cs_1",{"sds_1":{"s":[{"i":5,"v":[1.5,null]},{"i":-1,"v":[]}]}}]}"#;
    assert_eq!(timescale_frame("cs_1", bars), format!("~m~{}~m~{}", payload.len(), payload));
    let empty = r#"{"m":"timescale_update","p":["é",{"sds_1":{"s":[]}}]}"#;
    assert_eq!(timescale_frame("é", vec![]), format!("~m~{}~m~{}", empty.len(), empty));
}

#[test]
fn newest_point_message() {
    let payload = r#"{"m":"du","p":["cs_1",{"sds_1":{"lbs":{"bar_close_time":60.0},"ns":{"d":"","indexes":"nochange"},"s":[{"i":0,"v":[1.0,2.0]}],"t":"sds_1"}}]}"#;
    assert_eq!(
        du_frame("cs_1", vec![doc("1.0"), doc("2.0")], doc("60.0")),
        format!("~m~{}~m~{}", payload.len(), payload)
    );
}

#[test]
fn reported_candle_is_read() {
    let text = r#"{"e":"kline","k":{"t":1768000000000,"o":"1","h":"2","l":"3","c":"4","v":"5"}}"#;
    match on_feed_event(FeedEvent::Text(text.to_string())) {
        FeedStep::Update(d) => {
            let f = kline_fields(&d);
            assert_eq!(f.open_time.unwrap().as_integer(), Some(1768000000000));
            assert_eq!([f.open, f.high, f.low, f.close, f.volume], ["1", "2", "3", "4", "5"]);
        }
        _ => panic!("update"),
    }
}

#[test]
fn missing_values_of_a_candle_are_zero() {
    let d = doc(r#"{"e":"kline","k":{"o":1,"h":"2"}}"#);
    let f = kline_fields(&d);
    assert_eq!(f.open_time, None);
    assert_eq!([f.open, f.high, f.low, f.close, f.volume], ["0", "2", "0", "0", "0"]);
    assert!(reports_kline(&d));
    let bare = doc(r#"{"e":"kline"}"#);
    assert_eq!(kline_fields(&bare).close, "0");
}

#[test]
fn other_feed_events() {
    assert_eq!(on_feed_event(FeedEvent::Text("{".to_string())), FeedStep::Ignore);
    assert_eq!(on_feed_event(FeedEvent::Text("{\"e\":\"x\"}".to_string())), FeedStep::Ignore);
    assert_eq!(on_feed_event(FeedEvent::Text("[1]".to_string())), FeedStep::Ignore);
    assert_eq!(on_feed_event(FeedEvent::Ping(vec![1, 2])), FeedStep::Pong(vec![1, 2]));
    assert_eq!(on_feed_event(FeedEvent::Failed), FeedStep::Stop);
    assert_eq!(on_feed_event(FeedEvent::Ended), FeedStep::Stop);
    assert_eq!(on_feed_event(FeedEvent::Other), FeedStep::Ignore);
    assert_eq!(on_document(None), FeedStep::Ignore);
    assert_eq!(on_document(Some(Json::Null)), FeedStep::Ignore);
    assert_eq!(FEED_URL, "wss://testnet.binance.vision/ws/btcusdt@kline_1m");
}
