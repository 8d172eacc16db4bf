//! Price candles: fetching their history, and turning them into chart updates.

use crate::decimal::{decimal, push_decimal};
use crate::frame::{frame, framed};
use crate::json::{
    are_leaves, docs_are_elementwise, element, fits, integer_of, is_leaf, is_number, is_readable,
    json_list, json_parse, json_text, member, member_fits, no_members_fit, text_of, Doc, Json,
};
use vstd::prelude::*;
use vstd::string::*;

verus! {

/// The market whose candles are charted.
pub const CHART_SYMBOL: &'static str = "BTCUSDT";

/// The time that a charted candle covers.
pub const CHART_INTERVAL: &'static str = "1m";

/// An integer in decimal, with its sign where it is negative.
pub open spec fn signed_decimal(i: int) -> Seq<char> {
    if i < 0 {
        "-"@ + decimal((-i) as nat)
    } else {
        decimal(i as nat)
    }
}

/// The address of a page of candles that ends at a time in milliseconds.
pub open spec fn page_url(symbol: Seq<char>, interval: Seq<char>, end_time: int) -> Seq<char> {
    "https://testnet.binance.vision/api/v3/klines?symbol="@ + symbol + "&interval="@ + interval
        + "&endTime="@ + signed_decimal(end_time) + "&limit=1000"@
}

/// The opening time of the oldest candle of a page, where it is an integer.
pub open spec fn oldest_time(page: Seq<Doc>) -> Option<int> {
    if page.len() == 0 {
        None
    } else {
        integer_of(element(page[0], 0))
    }
}

/// The history while its pages come in, newest page first.
#[derive(Debug, PartialEq)]
pub struct CandleFetch {
    candles: Vec<Json>,
    end_time: i64,
    pages: usize,
    ended: bool,
}

/// What a history in the making holds.
pub struct History {
    /// The candles so far, in the order in which they came.
    pub fetched: Seq<Doc>,
    /// The time at which the next page ends.
    pub end: int,
    /// How many pages have been asked for.
    pub asked: nat,
    /// Whether an empty page has come.
    pub ended: bool,
}

impl History {
    /// Nothing more is asked for after ten pages or an empty one.
    pub open spec fn done(self) -> bool {
        self.ended || self.asked >= 10
    }

    /// Nothing has come yet.
    pub open spec fn start(now: int) -> History {
        History { fetched: Seq::empty(), end: now, asked: 0, ended: false }
    }

    /// After what came for a page: nothing where it could not be had.
    pub open spec fn with_page(self, page: Option<Seq<Doc>>) -> History {
        match page {
            None => History { asked: self.asked + 1, ..self },
            Some(page) => History {
                fetched: self.fetched + page,
                end: match oldest_time(page) {
                    Some(t) => t - 1,
                    None => self.end,
                },
                asked: self.asked + 1,
                ended: page.len() == 0,
            },
        }
    }

    /// After the pages that would come, as far as they are asked for.
    pub open spec fn from_pages(now: int, pages: Seq<Option<Seq<Doc>>>) -> History
        decreases pages.len(),
    {
        if pages.len() == 0 {
            History::start(now)
        } else {
            let before = History::from_pages(now, pages.drop_last());
            if before.done() {
                before
            } else {
                before.with_page(pages.last())
            }
        }
    }
}

/// All candles of some pages, in order.
pub open spec fn all_candles(pages: Seq<Option<Seq<Doc>>>) -> Seq<Doc>
    decreases pages.len(),
{
    if pages.len() == 0 {
        Seq::empty()
    } else {
        match pages.last() {
            Some(page) => all_candles(pages.drop_last()) + page,
            None => all_candles(pages.drop_last()),
        }
    }
}

/// At most ten pages are asked for, no candle of them is lost, and fewer are taken than there are
/// only once nothing more is asked for.
pub proof fn history_holds_its_pages(now: int, pages: Seq<Option<Seq<Doc>>>)
    ensures
        ({
            let h = History::from_pages(now, pages);
            &&& h.asked <= 10
            &&& h.asked <= pages.len()
            &&& h.fetched == all_candles(pages.take(h.asked as int))
            &&& h.asked < pages.len() ==> h.done()
        }),
    decreases pages.len(),
{
    let h = History::from_pages(now, pages);
    if pages.len() > 0 {
        let front = pages.drop_last();
        let before = History::from_pages(now, front);
        history_holds_its_pages(now, front);
        assert(front.take(before.asked as int) =~= pages.take(before.asked as int));
        if !before.done() {
            assert(pages.take(h.asked as int) =~= pages);
            assert(front.take(front.len() as int) =~= front);
        }
    } else {
        assert(pages.take(0) =~= Seq::empty());
    }
}

/// The documents of an optional page.
pub open spec fn page_docs(page: Option<Vec<Json>>) -> Option<Seq<Doc>> {
    match page {
        Some(page) => Some(Json::docs(page@)),
        None => None,
    }
}

/// The page that an optional response carries.
pub open spec fn body_page(body: Option<Vec<u8>>) -> Option<Seq<Doc>> {
    match body {
        Some(bytes) => json_list(bytes@),
        None => None,
    }
}

impl View for CandleFetch {
    type V = History;

    closed spec fn view(&self) -> History {
        History {
            fetched: Json::docs(self.candles@),
            end: self.end_time as int,
            asked: self.pages as nat,
            ended: self.ended,
        }
    }
}

impl CandleFetch {
    /// Begins with the page that ends now.
    pub fn begin(now: i64) -> (r: CandleFetch)
        ensures
            r@ == History::start(now as int),
    {
        assert(Json::docs(Seq::<Json>::empty()) =~= Seq::<Doc>::empty());
        CandleFetch { candles: Vec::new(), end_time: now, pages: 0, ended: false }
    }

    /// Whether nothing more is asked for.
    pub fn is_done(&self) -> (r: bool)
        ensures
            r == self@.done(),
    {
        self.ended || self.pages >= 10
    }

    /// The address of the next page.
    pub fn next_url(&self, symbol: &str, interval: &str) -> (r: String)
        ensures
            r@ == page_url(symbol@, interval@, self@.end),
    {
        let mut r = "https://testnet.binance.vision/api/v3/klines?symbol=".to_owned();
        r.append(symbol);
        r.append("&interval=");
        r.append(interval);
        r.append("&endTime=");
        if self.end_time < 0 {
            r.append("-");
            push_decimal(&mut r, (-(self.end_time as i128)) as u128);
        } else {
            push_decimal(&mut r, self.end_time as u128);
        }
        r.append("&limit=1000");
        r
    }

    /// Takes in what came for the page that was asked for: nothing where it could not be had.
    pub fn on_page(&mut self, page: Option<Vec<Json>>)
        requires
            !old(self)@.done(),
            page matches Some(page) ==> oldest_time(Json::docs(page@)) != Some(i64::MIN as int),
        ensures
            final(self)@ == old(self)@.with_page(page_docs(page)),
    {
        self.pages = self.pages + 1;
        match page {
            None => {},
            Some(page) => {
                proof {
                    docs_are_elementwise(page@);
                    docs_are_elementwise(self.candles@);
                }
                let ghost given = page;
                let mut page = page;
                if page.len() == 0 {
                    self.ended = true;
                } else {
                    match page[0].at(0) {
                        Some(time) => match time.as_integer() {
                            Some(t) => {
                                self.end_time = t - 1;
                            },
                            None => {},
                        },
                        None => {},
                    }
                }
                self.candles.append(&mut page);
                proof {
                    docs_are_elementwise(self.candles@);
                }
                assert(self@.fetched =~= old(self)@.fetched + page_docs(Some(given))->0);
            },
        }
    }

    /// Takes in the response that came for the page that was asked for: a page where its bytes
    /// spell an array, and nothing where they do not or where no response came. Whether it was
    /// taken in: not where the oldest candle has the least time there is, which no page can end
    /// before.
    pub fn try_body(&mut self, body: Option<Vec<u8>>) -> (r: bool)
        requires
            !old(self)@.done(),
        ensures
            ({
                let page = body_page(body);
                let refused = page is Some && oldest_time(page->0) == Some(i64::MIN as int);
                &&& r == !refused
                &&& final(self)@ == if refused {
                    old(self)@
                } else {
                    old(self)@.with_page(page)
                }
            }),
    {
        let page = match body {
            Some(bytes) => Json::parse_list(&bytes),
            None => None,
        };
        let refused = match &page {
            Some(page) => {
                proof {
                    docs_are_elementwise(page@);
                }
                page.len() > 0 && match page[0].at(0) {
                    Some(time) => match time.as_integer() {
                        Some(t) => t == i64::MIN,
                        None => false,
                    },
                    None => false,
                }
            },
            None => false,
        };
        if refused {
            return false;
        }
        self.on_page(page);
        true
    }

    /// The history: all candles that came, last to first.
    pub fn finish(self) -> (r: Vec<Json>)
        ensures
            Json::docs(r@) == self@.fetched.reverse(),
    {
        let mut rest = self.candles;
        let mut r: Vec<Json> = Vec::new();
        let ghost all = rest@;
        proof {
            docs_are_elementwise(all);
        }
        loop
            invariant
                rest@.len() + r@.len() == all.len(),
                rest@ == all.take(rest@.len() as int),
                forall|i: int| 0 <= i < r@.len() ==> #[trigger] r@[i] == all[all.len() - 1 - i],
            ensures
                r@.len() == all.len(),
                forall|i: int| 0 <= i < r@.len() ==> #[trigger] r@[i] == all[all.len() - 1 - i],
            decreases rest@.len(),
        {
            match rest.pop() {
                Some(c) => {
                    r.push(c);
                },
                None => {
                    break;
                },
            }
        }
        proof {
            docs_are_elementwise(r@);
        }
        assert(Json::docs(r@) =~= Json::docs(all).reverse());
        r
    }
}

/// What a chart needs of one candle; the texts are decimal numbers still to be read.
#[derive(Debug, PartialEq)]
pub struct CandleFields<'a> {
    pub index: i64,
    pub time: &'a Json,
    pub open: &'a String,
    pub high: &'a String,
    pub low: &'a String,
    pub close: &'a String,
    pub volume: &'a String,
}

/// A candle is usable when its time is a number and its five values are texts.
pub open spec fn is_candle(c: Doc) -> bool {
    &&& is_number(element(c, 0))
    &&& text_of(element(c, 1)) is Some
    &&& text_of(element(c, 2)) is Some
    &&& text_of(element(c, 3)) is Some
    &&& text_of(element(c, 4)) is Some
    &&& text_of(element(c, 5)) is Some
}

fn text_at(c: &Json, i: usize) -> (r: Option<&String>)
    ensures
        match r {
            Some(s) => text_of(element(c@, i as nat)) == Some(s@),
            None => text_of(element(c@, i as nat)) is None,
        },
{
    match c.at(i) {
        Some(j) => j.as_text(),
        None => None,
    }
}

/// Reads a candle.
pub fn candle_fields(c: &Json) -> (r: Option<CandleFields<'_>>)
    ensures
        match r {
            Some(f) => {
                &&& is_candle(c@)
                &&& f.index == match integer_of(element(c@, 0)) {
                    Some(i) => i,
                    None => 0,
                }
                &&& element(c@, 0) == Some(f.time@)
                &&& text_of(element(c@, 1)) == Some(f.open@)
                &&& text_of(element(c@, 2)) == Some(f.high@)
                &&& text_of(element(c@, 3)) == Some(f.low@)
                &&& text_of(element(c@, 4)) == Some(f.close@)
                &&& text_of(element(c@, 5)) == Some(f.volume@)
            },
            None => !is_candle(c@),
        },
{
    let time = match c.at(0) {
        Some(t) => t,
        None => {
            return None;
        },
    };
    match time {
        Json::Number(_) => {},
        _ => {
            return None;
        },
    }
    let index: i64 = match time.as_integer() {
        Some(i) => i,
        None => 0,
    };
    match (text_at(c, 1), text_at(c, 2), text_at(c, 3), text_at(c, 4), text_at(c, 5)) {
        (Some(open), Some(high), Some(low), Some(close), Some(volume)) => Some(
            CandleFields { index, time, open, high, low, close, volume },
        ),
        _ => None,
    }
}

/// One point of a chart series: its index, and its time and five values as documents.
#[derive(Debug, PartialEq)]
pub struct Bar {
    pub index: i64,
    pub values: Vec<Json>,
}

/// The document of a point.
pub open spec fn bar_doc(index: int, values: Seq<Doc>) -> Doc {
    Doc::Object(Map::empty().insert("i"@, Doc::Integer(index)).insert("v"@, Doc::Array(values)))
}

/// The documents of the points that could be read, in order.
pub open spec fn bar_docs(bars: Seq<Option<Bar>>) -> Seq<Doc>
    decreases bars.len(),
{
    if bars.len() == 0 {
        Seq::empty()
    } else {
        match bars.last() {
            Some(bar) => bar_docs(bars.drop_last()).push(
                bar_doc(bar.index as int, Json::docs(bar.values@)),
            ),
            None => bar_docs(bars.drop_last()),
        }
    }
}

/// The message that sets a chart's whole series.
pub open spec fn timescale_doc(chart_id: Seq<char>, series: Seq<Doc>) -> Doc {
    let update = Doc::Object(
        Map::empty().insert(
            "sds_1"@,
            Doc::Object(Map::empty().insert("s"@, Doc::Array(series))),
        ),
    );
    Doc::Object(
        Map::empty().insert("m"@, Doc::Text("timescale_update"@)).insert(
            "p"@,
            Doc::Array(seq![Doc::Text(chart_id), update]),
        ),
    )
}

/// The message that changes a chart's newest point.
pub open spec fn du_doc(chart_id: Seq<char>, values: Seq<Doc>, close_time: Doc) -> Doc {
    let series = Map::empty().insert("s"@, Doc::Array(seq![bar_doc(0, values)])).insert(
        "ns"@,
        Doc::Object(
            Map::empty().insert("d"@, Doc::Text(""@)).insert("indexes"@, Doc::Text("nochange"@)),
        ),
    ).insert("t"@, Doc::Text("sds_1"@)).insert(
        "lbs"@,
        Doc::Object(Map::empty().insert("bar_close_time"@, close_time)),
    );
    Doc::Object(
        Map::empty().insert("m"@, Doc::Text("du"@)).insert(
            "p"@,
            Doc::Array(
                seq![
                    Doc::Text(chart_id),
                    Doc::Object(Map::empty().insert("sds_1"@, Doc::Object(series))),
                ],
            ),
        ),
    )
}

/// The chart that a message is addressed to: its first parameter.
pub open spec fn addressee(message: Doc) -> Option<Seq<char>> {
    match member(message, "p"@) {
        Some(p) => text_of(element(p, 0)),
        None => None,
    }
}

proof fn object_of_one_fits(key: Seq<char>, value: Doc, depth: nat)
    requires
        depth > 0,
        key.len() < 30,
        fits(value, (depth - 1) as nat, true),
    ensures
        fits(Doc::Object(Map::empty().insert(key, value)), depth, true),
{
    no_members_fit(depth, true);
    member_fits(Map::empty(), key, value, depth, true);
}

proof fn bar_fits(index: int, values: Seq<Doc>, depth: nat)
    requires
        are_leaves(values),
        depth >= 2,
    ensures
        fits(bar_doc(index, values), depth, true),
{
    reveal_strlit("i");
    reveal_strlit("v");
    assert forall|i: int| 0 <= i < values.len() implies fits(
        #[trigger] values[i],
        (depth - 2) as nat,
        true,
    ) by {}
    assert(fits(Doc::Array(values), (depth - 1) as nat, true));
    object_of_one_fits("i"@, Doc::Integer(index), depth);
    member_fits(
        Map::empty().insert("i"@, Doc::Integer(index)),
        "v"@,
        Doc::Array(values),
        depth,
        true,
    );
}

proof fn message_fits(kind: Seq<char>, chart_id: Seq<char>, update: Doc)
    requires
        fits(update, 125, true),
    ensures
        is_readable(
            Doc::Object(
                Map::empty().insert("m"@, Doc::Text(kind)).insert(
                    "p"@,
                    Doc::Array(seq![Doc::Text(chart_id), update]),
                ),
            ),
        ),
{
    reveal_strlit("m");
    reveal_strlit("p");
    let params = seq![Doc::Text(chart_id), update];
    assert forall|i: int| 0 <= i < params.len() implies fits(#[trigger] params[i], 125, true) by {}
    assert(fits(Doc::Array(params), 126, true));
    object_of_one_fits("m"@, Doc::Text(kind), 127);
    member_fits(
        Map::empty().insert("m"@, Doc::Text(kind)),
        "p"@,
        Doc::Array(params),
        127,
        true,
    );
}

/// Points whose values are leaves.
pub open spec fn have_leaves(bars: Seq<Option<Bar>>) -> bool {
    forall|i: int|
        0 <= i < bars.len() ==> (#[trigger] bars[i] matches Some(bar) ==> are_leaves(
            Json::docs(bar.values@),
        ))
}

proof fn bars_fit(bars: Seq<Option<Bar>>, depth: nat)
    requires
        have_leaves(bars),
        depth >= 2,
    ensures
        forall|i: int|
            0 <= i < bar_docs(bars).len() ==> fits(#[trigger] bar_docs(bars)[i], depth, true),
    decreases bars.len(),
{
    if bars.len() > 0 {
        let front = bars.drop_last();
        assert forall|i: int| 0 <= i < front.len() implies (#[trigger] front[i] matches Some(bar)
            ==> are_leaves(Json::docs(bar.values@))) by {
            assert(front[i] == bars[i]);
        }
        bars_fit(front, depth);
        assert(bars[bars.len() - 1] == bars.last());
        match bars.last() {
            Some(bar) => bar_fits(bar.index as int, Json::docs(bar.values@), depth),
            None => {},
        }
        assert forall|i: int| 0 <= i < bar_docs(bars).len() implies fits(
            #[trigger] bar_docs(bars)[i],
            depth,
            true,
        ) by {
            if i < bar_docs(front).len() {
                assert(bar_docs(bars)[i] == bar_docs(front)[i]);
            }
        }
    }
}

/// The message that sets a chart's whole series can be read again, where its values are leaves.
pub proof fn timescale_message_is_readable(chart_id: Seq<char>, bars: Seq<Option<Bar>>)
    requires
        have_leaves(bars),
    ensures
        is_readable(timescale_doc(chart_id, bar_docs(bars))),
{
    reveal_strlit("s");
    reveal_strlit("sds_1");
    let series = bar_docs(bars);
    bars_fit(bars, 122);
    assert(fits(Doc::Array(series), 123, true));
    object_of_one_fits("s"@, Doc::Array(series), 124);
    let inner = Doc::Object(Map::empty().insert("s"@, Doc::Array(series)));
    object_of_one_fits("sds_1"@, inner, 125);
    message_fits(
        "timescale_update"@,
        chart_id,
        Doc::Object(Map::empty().insert("sds_1"@, inner)),
    );
}

/// The message that changes a chart's newest point can be read again, where its values are leaves.
pub proof fn du_message_is_readable(chart_id: Seq<char>, values: Seq<Doc>, close_time: Doc)
    requires
        are_leaves(values),
        is_leaf(close_time),
    ensures
        is_readable(du_doc(chart_id, values, close_time)),
{
    reveal_strlit("s");
    reveal_strlit("ns");
    reveal_strlit("d");
    reveal_strlit("indexes");
    reveal_strlit("t");
    reveal_strlit("lbs");
    reveal_strlit("bar_close_time");
    reveal_strlit("sds_1");
    let points = seq![bar_doc(0, values)];
    bar_fits(0, values, 122);
    assert forall|i: int| 0 <= i < points.len() implies fits(#[trigger] points[i], 122, true) by {}
    assert(fits(Doc::Array(points), 123, true));
    object_of_one_fits("d"@, Doc::Text(""@), 123);
    let d = Map::empty().insert("d"@, Doc::Text(""@));
    member_fits(d, "indexes"@, Doc::Text("nochange"@), 123, true);
    let ns = Doc::Object(d.insert("indexes"@, Doc::Text("nochange"@)));
    object_of_one_fits("bar_close_time"@, close_time, 123);
    let lbs = Doc::Object(Map::empty().insert("bar_close_time"@, close_time));
    object_of_one_fits("s"@, Doc::Array(points), 124);
    let a = Map::empty().insert("s"@, Doc::Array(points));
    member_fits(a, "ns"@, ns, 124, true);
    let b = a.insert("ns"@, ns);
    member_fits(b, "t"@, Doc::Text("sds_1"@), 124, true);
    let c = b.insert("t"@, Doc::Text("sds_1"@));
    member_fits(c, "lbs"@, lbs, 124, true);
    let series = Doc::Object(c.insert("lbs"@, lbs));
    object_of_one_fits("sds_1"@, series, 125);
    message_fits("du"@, chart_id, Doc::Object(Map::empty().insert("sds_1"@, series)));
}

fn object_of_one(key: &str, value: Json) -> (r: Json)
    ensures
        r@ == Doc::Object(Map::empty().insert(key@, value@)),
{
    let mut members: Vec<(String, Json)> = Vec::new();
    Json::add_member(&mut members, key, value);
    Json::Object(members)
}

fn bar_json(index: i64, values: Vec<Json>) -> (r: Json)
    ensures
        r@ == bar_doc(index as int, Json::docs(values@)),
{
    let mut members: Vec<(String, Json)> = Vec::new();
    Json::add_member(&mut members, "i", Json::integer(index as i128));
    Json::add_member(&mut members, "v", Json::Array(values));
    Json::Object(members)
}

fn message_json(kind: &str, chart_id: &str, update: Json) -> (r: Json)
    ensures
        r@ == Doc::Object(
            Map::empty().insert("m"@, Doc::Text(kind@)).insert(
                "p"@,
                Doc::Array(seq![Doc::Text(chart_id@), update@]),
            ),
        ),
{
    let ghost update_doc = update@;
    let mut params: Vec<Json> = Vec::new();
    Json::add_element(&mut params, Json::text(chart_id));
    Json::add_element(&mut params, update);
    assert(Json::docs(params@) =~= seq![Doc::Text(chart_id@), update_doc]);
    let mut members: Vec<(String, Json)> = Vec::new();
    Json::add_member(&mut members, "m", Json::text(kind));
    Json::add_member(&mut members, "p", Json::Array(params));
    Json::Object(members)
}

/// The framed message that sets a chart's whole series to the points that could be read.
pub fn timescale_frame(chart_id: &str, bars: Vec<Option<Bar>>) -> (r: String)
    ensures
        r@ == framed(json_text(timescale_doc(chart_id@, bar_docs(bars@)))),
        have_leaves(bars@) ==> json_parse(
            json_text(timescale_doc(chart_id@, bar_docs(bars@))),
        ) is Some,
{
    let ghost all = bars@;
    proof {
        if have_leaves(all) {
            timescale_message_is_readable(chart_id@, all);
        }
    }
    let mut series: Vec<Json> = Vec::new();
    for bar in it: bars
        invariant
            it.seq() == all,
            Json::docs(series@) == bar_docs(all.take(it.index())),
    {
        assert(all.take(it.index() + 1).drop_last() == all.take(it.index()));
        match bar {
            Some(bar) => {
                Json::add_element(&mut series, bar_json(bar.index, bar.values));
            },
            None => {},
        }
    }
    assert(all.take(all.len() as int) == all);
    let update = object_of_one("sds_1", object_of_one("s", Json::Array(series)));
    frame(message_json("timescale_update", chart_id, update).to_text().as_str())
}

/// The framed message that changes a chart's newest point.
pub fn du_frame(chart_id: &str, values: Vec<Json>, close_time: Json) -> (r: String)
    ensures
        r@ == framed(json_text(du_doc(chart_id@, Json::docs(values@), close_time@))),
        are_leaves(Json::docs(values@)) && is_leaf(close_time@) ==> json_parse(
            json_text(du_doc(chart_id@, Json::docs(values@), close_time@)),
        ) is Some,
{
    proof {
        if are_leaves(Json::docs(values@)) && is_leaf(close_time@) {
            du_message_is_readable(chart_id@, Json::docs(values@), close_time@);
        }
    }
    let ghost point = bar_doc(0, Json::docs(values@));
    let mut series: Vec<Json> = Vec::new();
    Json::add_element(&mut series, bar_json(0, values));
    assert(Json::docs(series@) =~= seq![point]);
    let mut ns: Vec<(String, Json)> = Vec::new();
    Json::add_member(&mut ns, "d", Json::text(""));
    Json::add_member(&mut ns, "indexes", Json::text("nochange"));
    let mut members: Vec<(String, Json)> = Vec::new();
    Json::add_member(&mut members, "s", Json::Array(series));
    Json::add_member(&mut members, "ns", Json::Object(ns));
    Json::add_member(&mut members, "t", Json::text("sds_1"));
    Json::add_member(&mut members, "lbs", object_of_one("bar_close_time", close_time));
    let update = object_of_one("sds_1", Json::Object(members));
    frame(message_json("du", chart_id, update).to_text().as_str())
}

/// A page whose candles stand in rising order of opening time is followed by one that ends just
/// before its first candle, and so before every candle of it.
pub proof fn next_page_ends_before_this_one(history: History, page: Seq<Doc>, i: int)
    requires
        0 <= i < page.len(),
        forall|j: int| 0 <= j < page.len() ==> integer_of(element(#[trigger] page[j], 0)) is Some,
        forall|j: int, k: int|
            0 <= j < k < page.len() ==> integer_of(element(#[trigger] page[j], 0))->0 < integer_of(
                element(#[trigger] page[k], 0),
            )->0,
    ensures
        history.with_page(Some(page)).end == integer_of(element(page[0], 0))->0 - 1,
        history.with_page(Some(page)).end < integer_of(element(page[i], 0))->0,
{
    if i > 0 {
        assert(integer_of(element(page[0], 0))->0 < integer_of(element(page[i], 0))->0);
    }
}

/// Pages that keep to the end time that was asked for share no candle.
pub proof fn pages_share_no_candle(history: History, page: Seq<Doc>, next: Seq<Doc>, i: int, j: int)
    requires
        0 <= i < page.len(),
        0 <= j < next.len(),
        forall|k: int| 0 <= k < page.len() ==> integer_of(element(#[trigger] page[k], 0)) is Some,
        forall|k: int, l: int|
            0 <= k < l < page.len() ==> integer_of(element(#[trigger] page[k], 0))->0 < integer_of(
                element(#[trigger] page[l], 0),
            )->0,
        integer_of(element(next[j], 0)) is Some,
        integer_of(element(next[j], 0))->0 <= history.with_page(Some(page)).end,
    ensures
        page[i] != next[j],
{
    next_page_ends_before_this_one(history, page, i);
}

/// A page that came is added behind what came before, candle by candle, and counts as asked for;
/// it ends the history exactly where it is empty, and moves the end time only where its first
/// candle has an integer time.
pub proof fn page_is_added(history: History, page: Seq<Doc>)
    ensures
        history.with_page(Some(page)).fetched == history.fetched + page,
        history.with_page(Some(page)).asked == history.asked + 1,
        history.with_page(Some(page)).ended == (page.len() == 0),
        page.len() == 0 ==> history.with_page(Some(page)).end == history.end,
        page.len() > 0 && integer_of(element(page[0], 0)) is None ==> history.with_page(
            Some(page),
        ).end == history.end,
{
}

/// A page that could not be had counts as asked for and changes nothing else.
pub proof fn missing_page_is_counted(history: History)
    ensures
        history.with_page(None).asked == history.asked + 1,
        history.with_page(None).fetched == history.fetched,
        history.with_page(None).end == history.end,
        history.with_page(None).ended == history.ended,
{
}

/// A history begins empty, with the page that ends now.
pub proof fn history_begins_now(now: int)
    ensures
        History::start(now).fetched == Seq::<Doc>::empty(),
        History::start(now).end == now,
        History::start(now).asked == 0,
        !History::start(now).ended,
{
}

/// Pages are asked for until ten have been or an empty one has come.
pub proof fn ten_pages_are_asked_for(history: History)
    ensures
        history.asked <= 9 && !history.ended ==> !history.done(),
        history.asked >= 10 ==> history.done(),
        history.ended ==> history.done(),
{
}

/// The page that is read from a response is the array that its bytes spell, and there is none
/// where they spell none or nothing came.
pub proof fn response_is_the_page(bytes: Vec<u8>)
    ensures
        body_page(Some(bytes)) == json_list(bytes@),
        body_page(None) is None,
{
}

/// A number is written with its sign and its digits.
pub proof fn sign_is_written(n: nat)
    ensures
        signed_decimal(n as int) == decimal(n),
        n > 0 ==> signed_decimal(-n) == seq!['-'] + decimal(n),
{
    reveal_strlit("-");
    assert("-"@ =~= seq!['-']);
}

/// The address of a page names the market, the interval, the end time and the number of candles,
/// whatever they are.
pub proof fn page_url_names_its_parts(symbol: Seq<char>, interval: Seq<char>, end_time: int)
    ensures
        ({
            let url = page_url(symbol, interval, end_time);
            let head = "https://testnet.binance.vision/api/v3/klines"@ + "?symbol="@ + symbol;
            let middle = "&interval="@ + interval;
            let tail = "&endTime="@ + signed_decimal(end_time) + "&limit="@ + decimal(1000);
            &&& url.take(head.len() as int) == head
            &&& url.skip(head.len() as int).take(middle.len() as int) == middle
            &&& url.skip((head.len() + middle.len()) as int) == tail
        }),
{
    reveal_strlit("https://testnet.binance.vision/api/v3/klines");
    reveal_strlit("?symbol=");
    reveal_strlit("https://testnet.binance.vision/api/v3/klines?symbol=");
    reveal_strlit("&limit=");
    reveal_strlit("&limit=1000");
    reveal_with_fuel(decimal, 5);
    let url = page_url(symbol, interval, end_time);
    let head = "https://testnet.binance.vision/api/v3/klines"@ + "?symbol="@ + symbol;
    let middle = "&interval="@ + interval;
    let tail = "&endTime="@ + signed_decimal(end_time) + "&limit="@ + decimal(1000);
    assert("https://testnet.binance.vision/api/v3/klines?symbol="@
        =~= "https://testnet.binance.vision/api/v3/klines"@ + "?symbol="@);
    assert(decimal(1000) =~= seq!['1', '0', '0', '0']);
    assert("&limit=1000"@ =~= "&limit="@ + decimal(1000));
    assert(url =~= head + middle + tail);
    assert(url.take(head.len() as int) =~= head);
    assert(url.skip(head.len() as int).take(middle.len() as int) =~= middle);
    assert(url.skip((head.len() + middle.len()) as int) =~= tail);
}

/// An array is a candle exactly where it holds a number and behind it five texts; what follows
/// them does not matter. Nothing else is a candle.
pub proof fn candle_by_its_elements(v: Seq<Doc>, d: Doc)
    ensures
        is_candle(Doc::Array(v)) == (v.len() >= 6 && (v[0] is Integer || v[0] is Real)
            && v[1] is Text && v[2] is Text && v[3] is Text && v[4] is Text && v[5] is Text),
        !(d is Array) ==> !is_candle(d),
{
}

/// A point says its index and its values, and nothing else.
pub proof fn bar_says_index_and_values(index: int, values: Seq<Doc>, other: Seq<char>)
    ensures
        member(bar_doc(index, values), "i"@) == Some(Doc::Integer(index)),
        member(bar_doc(index, values), "v"@) == Some(Doc::Array(values)),
        other != "i"@ && other != "v"@ ==> member(bar_doc(index, values), other) is None,
{
    reveal_strlit("i");
    reveal_strlit("v");
    assert("i"@[0] != "v"@[0]);
}

/// Points are listed in order, and one that could not be read is left out by itself.
pub proof fn bars_are_listed_in_order(bars: Seq<Option<Bar>>, bar: Bar)
    ensures
        bar_docs(bars.push(Some(bar))) == bar_docs(bars).push(
            bar_doc(bar.index as int, Json::docs(bar.values@)),
        ),
        bar_docs(bars.push(None)) == bar_docs(bars),
        bar_docs(Seq::empty()) == Seq::<Doc>::empty(),
{
    assert(bars.push(Some(bar)).drop_last() =~= bars);
    assert(bars.push(None).drop_last() =~= bars);
}

/// What a chart reads of a message: its kind, the chart, and the update of the one series.
pub open spec fn update_of(message: Doc) -> Option<Doc> {
    match member(message, "p"@) {
        Some(p) => match element(p, 1) {
            Some(update) => member(update, "sds_1"@),
            None => None,
        },
        None => None,
    }
}

/// A message has a kind and two parameters, the second of them with one series, and no further
/// member of this name.
pub open spec fn has_message_shape(message: Doc, other: Seq<char>) -> bool {
    &&& other != "m"@ && other != "p"@ ==> member(message, other) is None
    &&& member(message, "p"@) matches Some(Doc::Array(params)) && params.len() == 2 && (other
        != "sds_1"@ ==> member(params[1], other) is None)
}

/// The message that sets a series says so, is addressed to the chart, and gives the series whole,
/// and says nothing else.
pub proof fn timescale_message_gives_the_series(
    chart_id: Seq<char>,
    series: Seq<Doc>,
    other: Seq<char>,
)
    ensures
        ({
            let message = timescale_doc(chart_id, series);
            &&& has_message_shape(message, other)
            &&& other != "s"@ ==> member(update_of(message)->0, other) is None
            &&& member(message, "m"@) == Some(Doc::Text("timescale_update"@))
            &&& addressee(message) == Some(chart_id)
            &&& update_of(message) is Some
            &&& member(update_of(message)->0, "s"@) == Some(Doc::Array(series))
        }),
{
    reveal_strlit("m");
    reveal_strlit("p");
    assert("m"@[0] != "p"@[0]);
}

/// The message that changes the newest point says so, is addressed to the chart, and gives one
/// point with the values, and the time at which its candle closes, and says nothing else.
pub proof fn du_message_gives_the_point(
    chart_id: Seq<char>,
    values: Seq<Doc>,
    close_time: Doc,
    other: Seq<char>,
)
    ensures
        ({
            let message = du_doc(chart_id, values, close_time);
            let update = update_of(message)->0;
            &&& has_message_shape(message, other)
            &&& other != "s"@ && other != "t"@ && other != "ns"@ && other != "lbs"@ ==> member(
                update,
                other,
            ) is None
            &&& other != "d"@ && other != "indexes"@ ==> member(
                member(update, "ns"@)->0,
                other,
            ) is None
            &&& other != "bar_close_time"@ ==> member(member(update, "lbs"@)->0, other) is None
            &&& member(message, "m"@) == Some(Doc::Text("du"@))
            &&& addressee(message) == Some(chart_id)
            &&& update_of(message) is Some
            &&& member(update, "s"@) == Some(Doc::Array(seq![bar_doc(0, values)]))
            &&& member(update, "t"@) == Some(Doc::Text("sds_1"@))
            &&& member(update, "lbs"@) is Some
            &&& member(member(update, "lbs"@)->0, "bar_close_time"@) == Some(close_time)
            &&& member(update, "ns"@) is Some
            &&& member(member(update, "ns"@)->0, "d"@) == Some(Doc::Text(""@))
            &&& member(member(update, "ns"@)->0, "indexes"@) == Some(Doc::Text("nochange"@))
        }),
{
    reveal_strlit("m");
    reveal_strlit("p");
    reveal_strlit("s");
    reveal_strlit("t");
    reveal_strlit("ns");
    reveal_strlit("lbs");
    reveal_strlit("d");
    reveal_strlit("indexes");
    assert("m"@[0] != "p"@[0]);
    assert("s"@[0] != "t"@[0]);
    assert("s"@.len() == 1 && "t"@.len() == 1 && "ns"@.len() == 2 && "lbs"@.len() == 3);
    assert("d"@.len() == 1 && "indexes"@.len() == 7);
}

/// The documents of a page are those of its candles, all of them.
pub proof fn page_docs_are_the_candles(page: Vec<Json>)
    ensures
        page_docs(Some(page)) == Some(Json::docs(page@)),
        page_docs(None) is None,
{
}

/// A candle is read field by field: the time, and behind it the opening, highest, lowest and closing
/// price and the volume, in this order.
pub proof fn candle_is_read_in_order(c: &Json, v: Seq<Doc>, r: Option<CandleFields<'_>>)
    requires
        call_ensures(candle_fields, (c,), r),
        c@ == Doc::Array(v),
        v.len() >= 6,
        v[0] is Integer || v[0] is Real,
    ensures
        v[1] is Text && v[2] is Text && v[3] is Text && v[4] is Text && v[5] is Text ==> (
        r matches Some(f) && f.time@ == v[0] && Doc::Text(f.open@) == v[1] && Doc::Text(f.high@)
            == v[2] && Doc::Text(f.low@) == v[3] && Doc::Text(f.close@) == v[4] && Doc::Text(
            f.volume@,
        ) == v[5]),
        !(v[1] is Text && v[2] is Text && v[3] is Text && v[4] is Text && v[5] is Text) ==> r is None,
{
}

} // verus!
