//! The live price feed.

use crate::json::{json_parse, member, text_of, Doc, Json};
use crate::text::same;
use vstd::prelude::*;

verus! {

/// The address of the live feed.
pub const FEED_URL: &'static str = "wss://testnet.binance.vision/ws/btcusdt@kline_1m";

/// What comes from the feed.
#[derive(Debug, PartialEq, Eq)]
pub enum FeedEvent {
    Text(String),
    Ping(Vec<u8>),
    Failed,
    Ended,
    Other,
}

/// What to do about it.
#[derive(Debug, PartialEq)]
pub enum FeedStep {
    /// Send the chart the candle of this document.
    Update(Json),
    /// Answer the feed with this payload.
    Pong(Vec<u8>),
    /// Leave the feed.
    Stop,
    Ignore,
}

/// A document reports a candle by its event name.
pub open spec fn is_kline(d: Doc) -> bool {
    text_of(member(d, "e"@)) == Some("kline"@)
}

/// The member `key` of the candle that a document reports.
pub open spec fn kline_member(d: Doc, key: Seq<char>) -> Option<Doc> {
    match member(d, "k"@) {
        Some(k) => member(k, key),
        None => None,
    }
}

/// The text of a member of the candle; a zero where it has none.
pub open spec fn kline_text(d: Doc, key: Seq<char>) -> Seq<char> {
    match text_of(kline_member(d, key)) {
        Some(s) => s,
        None => "0"@,
    }
}

/// What a chart needs of a reported candle; the texts are decimal numbers still to be read.
#[derive(Debug, PartialEq)]
pub struct KlineFields<'a> {
    /// The opening time in milliseconds, where one is given.
    pub open_time: Option<&'a Json>,
    pub open: &'a str,
    pub high: &'a str,
    pub low: &'a str,
    pub close: &'a str,
    pub volume: &'a str,
}

/// Whether a document reports a candle.
pub fn reports_kline(doc: &Json) -> (r: bool)
    ensures
        r == is_kline(doc@),
{
    match doc.get("e") {
        Some(e) => match e.as_text() {
            Some(s) => same(s.as_str(), "kline"),
            None => false,
        },
        None => false,
    }
}

fn text_member<'a>(doc: &'a Json, key: &str) -> (r: &'a str)
    ensures
        r@ == kline_text(doc@, key@),
{
    match doc.get("k") {
        Some(k) => match k.get(key) {
            Some(v) => match v.as_text() {
                Some(s) => s.as_str(),
                None => "0",
            },
            None => "0",
        },
        None => "0",
    }
}

/// Reads the candle that a document reports.
pub fn kline_fields(doc: &Json) -> (r: KlineFields<'_>)
    ensures
        match r.open_time {
            Some(t) => kline_member(doc@, "t"@) == Some(t@),
            None => kline_member(doc@, "t"@) is None,
        },
        r.open@ == kline_text(doc@, "o"@),
        r.high@ == kline_text(doc@, "h"@),
        r.low@ == kline_text(doc@, "l"@),
        r.close@ == kline_text(doc@, "c"@),
        r.volume@ == kline_text(doc@, "v"@),
{
    let open_time = match doc.get("k") {
        Some(k) => k.get("t"),
        None => None,
    };
    KlineFields {
        open_time,
        open: text_member(doc, "o"),
        high: text_member(doc, "h"),
        low: text_member(doc, "l"),
        close: text_member(doc, "c"),
        volume: text_member(doc, "v"),
    }
}

/// Goes on with what reading a text message gave.
pub fn on_document(doc: Option<Json>) -> (r: FeedStep)
    ensures
        match doc {
            Some(d) => if is_kline(d@) {
                r == FeedStep::Update(d)
            } else {
                r == FeedStep::Ignore
            },
            None => r == FeedStep::Ignore,
        },
{
    match doc {
        Some(d) => if reports_kline(&d) {
            FeedStep::Update(d)
        } else {
            FeedStep::Ignore
        },
        None => FeedStep::Ignore,
    }
}

/// Goes on with what came from the feed: a reported candle is sent on, a ping is answered with
/// its own payload, a failure or the end of the feed leaves it, and anything else is passed over.
pub fn on_feed_event(event: FeedEvent) -> (r: FeedStep)
    ensures
        match event {
            FeedEvent::Text(text) => match json_parse(text@) {
                Some(d) => if is_kline(d) {
                    r matches FeedStep::Update(j) && j@ == d
                } else {
                    r == FeedStep::Ignore
                },
                None => r == FeedStep::Ignore,
            },
            FeedEvent::Ping(payload) => r == FeedStep::Pong(payload),
            FeedEvent::Failed => r == FeedStep::Stop,
            FeedEvent::Ended => r == FeedStep::Stop,
            FeedEvent::Other => r == FeedStep::Ignore,
        },
{
    match event {
        FeedEvent::Text(text) => on_document(Json::parse(text.as_str())),
        FeedEvent::Ping(payload) => FeedStep::Pong(payload),
        FeedEvent::Failed => FeedStep::Stop,
        FeedEvent::Ended => FeedStep::Stop,
        FeedEvent::Other => FeedStep::Ignore,
    }
}

/// Every object whose member `e` is the text `kline` reports a candle, whatever its other members
/// are, and no other document does.
pub proof fn kline_by_its_event_name(m: Map<Seq<char>, Doc>, e: Doc, d: Doc)
    ensures
        is_kline(Doc::Object(m.insert("e"@, Doc::Text("kline"@)))),
        e != Doc::Text("kline"@) ==> !is_kline(Doc::Object(m.insert("e"@, e))),
        !is_kline(Doc::Object(m.remove("e"@))),
        !(d is Object) ==> !is_kline(d),
{
}

/// A value of a reported candle is the text under its name in the member `k`, whatever else is
/// there, and a zero where there is no such text.
pub proof fn kline_values_are_found(
    m: Map<Seq<char>, Doc>,
    k: Map<Seq<char>, Doc>,
    key: Seq<char>,
    text: Seq<char>,
    other: Doc,
    d: Doc,
)
    ensures
        kline_text(Doc::Object(m.insert("k"@, Doc::Object(k.insert(key, Doc::Text(text))))), key)
            == text,
        !(other is Text) ==> kline_text(
            Doc::Object(m.insert("k"@, Doc::Object(k.insert(key, other)))),
            key,
        ) == "0"@,
        kline_text(Doc::Object(m.insert("k"@, Doc::Object(k.remove(key)))), key) == "0"@,
        !(other is Object) ==> kline_text(Doc::Object(m.insert("k"@, other)), key) == "0"@,
        kline_text(Doc::Object(m.remove("k"@)), key) == "0"@,
        !(d is Object) ==> kline_text(d, key) == "0"@,
{
}

/// The opening time of a reported candle is the member under its name, whatever it is, and there
/// is none where there is no such member.
pub proof fn kline_member_is_found(
    m: Map<Seq<char>, Doc>,
    k: Map<Seq<char>, Doc>,
    key: Seq<char>,
    value: Doc,
    other: Doc,
)
    ensures
        kline_member(Doc::Object(m.insert("k"@, Doc::Object(k.insert(key, value)))), key) == Some(
            value,
        ),
        kline_member(Doc::Object(m.insert("k"@, Doc::Object(k.remove(key)))), key) is None,
        !(other is Object) ==> kline_member(Doc::Object(m.insert("k"@, other)), key) is None,
        kline_member(Doc::Object(m.remove("k"@)), key) is None,
{
}

/// A text that reads as an object whose member `e` is the text `kline` leads to an update with that
/// object, whatever its other members are; a text that reads as anything else, or cannot be read,
/// leads to nothing.
pub proof fn reported_candle_is_sent_on(text: String, m: Map<Seq<char>, Doc>, step: FeedStep)
    requires
        call_ensures(on_feed_event, (FeedEvent::Text(text),), step),
    ensures
        json_parse(text@) == Some(Doc::Object(m.insert("e"@, Doc::Text("kline"@)))) ==> (
        step matches FeedStep::Update(doc) && doc@ == Doc::Object(
            m.insert("e"@, Doc::Text("kline"@)),
        )),
        json_parse(text@) == Some(Doc::Object(m.remove("e"@))) ==> step == FeedStep::Ignore,
        json_parse(text@) is None ==> step == FeedStep::Ignore,
{
}

/// A reported candle is read field by field, each under its own letter.
pub proof fn candle_is_read_by_letter(
    doc: &Json,
    m: Map<Seq<char>, Doc>,
    k: Map<Seq<char>, Doc>,
    text: Seq<char>,
    r: KlineFields<'_>,
)
    requires
        call_ensures(kline_fields, (doc,), r),
        doc@ == Doc::Object(m.insert("k"@, Doc::Object(k))),
    ensures
        k.contains_key("o"@) && k["o"@] == Doc::Text(text) ==> r.open@ == text,
        k.contains_key("h"@) && k["h"@] == Doc::Text(text) ==> r.high@ == text,
        k.contains_key("l"@) && k["l"@] == Doc::Text(text) ==> r.low@ == text,
        k.contains_key("c"@) && k["c"@] == Doc::Text(text) ==> r.close@ == text,
        k.contains_key("v"@) && k["v"@] == Doc::Text(text) ==> r.volume@ == text,
        k.contains_key("t"@) ==> (r.open_time matches Some(t) && t@ == k["t"@]),
        !k.contains_key("t"@) ==> r.open_time is None,
{
}

} // verus!
