//! The chart socket: the opening handshake and the answers to what the client says.

use crate::candles::{addressee, du_doc, timescale_doc};
use crate::decimal::{decimal, decimal_reads_back, digit_value, push_decimal};
use crate::frame::{frame, framed};
use crate::json::{
    is_flat_object, is_plain_text, is_simple_member, is_simple_value, members_text, object_text,
    quoted, short_name_is_free, Doc,
};
use crate::text::{
    chars_of, contains, find, first_at, includes, occurs_at, part_is_included, slice, string_of,
};
use vstd::prelude::*;
use vstd::string::*;

verus! {

/// The name under which a chart is addressed while the client has created none.
pub const FALLBACK_CHART_ID: &'static str = "cs_local";

/// How long a client is given to create a chart before the fallback is used, in seconds.
pub const CHART_WAIT_SECS: u64 = 5;

/// The first message to a client, at a time in milliseconds.
pub open spec fn open_message(timestamp_ms: nat) -> Seq<char> {
    "0{\"sid\":\"sid_"@ + decimal(timestamp_ms)
        + "\",\"upgrades\":[],\"pingInterval\":25000,\"pingTimeout\":5000}"@
}

/// The session that the second message announces.
pub open spec fn session_json(timestamp_ms: nat) -> Seq<char> {
    "{\"session_id\":\"cs_"@ + decimal(timestamp_ms) + "\",\"timestamp\":"@ + decimal(timestamp_ms)
        + ",\"name\":\"crypto-terminal\",\"premium\":false}"@
}

/// The members of the session, each with the text of its value.
pub open spec fn session_members(timestamp_ms: nat) -> Seq<(Seq<char>, Seq<char>)> {
    seq![
        ("session_id"@, quoted("cs_"@ + decimal(timestamp_ms))),
        ("timestamp"@, decimal(timestamp_ms)),
        ("name"@, quoted("crypto-terminal"@)),
        ("premium"@, "false"@),
    ]
}

/// The session is written as a JSON object of four members: two texts that need no escapes, a
/// number in decimal and a literal. So `Json::parse` reads it.
pub proof fn session_is_an_object(timestamp_ms: nat)
    ensures
        session_json(timestamp_ms) == object_text(session_members(timestamp_ms)),
        timestamp_ms <= u128::MAX ==> is_flat_object(session_json(timestamp_ms)),
{
    decimal_reads_back(timestamp_ms);
    reveal_strlit("cs_");
    reveal_strlit("crypto-terminal");
    reveal_strlit("{\"session_id\":\"cs_");
    reveal_strlit("\",\"timestamp\":");
    reveal_strlit(",\"name\":\"crypto-terminal\",\"premium\":false}");
    reveal_strlit("session_id");
    reveal_strlit("timestamp");
    reveal_strlit("name");
    reveal_strlit("premium");
    reveal_strlit("false");
    reveal_strlit("{");
    reveal_strlit("}");
    reveal_strlit("\"");
    reveal_strlit(":");
    reveal_strlit(",");
    let m = session_members(timestamp_ms);
    reveal_with_fuel(members_text, 5);
    assert(m.drop_last().drop_last().drop_last() =~= m.take(1));
    assert(m.drop_last().drop_last() =~= m.take(2));
    assert(m.drop_last() =~= m.take(3));
    assert(session_json(timestamp_ms) =~= object_text(m));
    if timestamp_ms <= u128::MAX {
        assert(is_plain_text("cs_"@ + decimal(timestamp_ms))) by {
            let d = decimal(timestamp_ms);
            assert forall|i: int| 0 <= i < d.len() implies #[trigger] d[i] != '"' && d[i] != '\\'
                && d[i] as u32 >= 32 by {
                assert(digit_value(d[i]) is Some);
            }
        }
        assert(is_plain_text("crypto-terminal"@));
        short_name_is_free("session_id"@);
        short_name_is_free("timestamp"@);
        short_name_is_free("name"@);
        short_name_is_free("premium"@);
        assert(is_simple_value(m[0].1));
        assert(is_simple_value(m[1].1));
        assert(is_simple_value(m[2].1));
        assert forall|i: int| 0 <= i < m.len() implies is_simple_member(#[trigger] m[i]) by {
            assert(i == 0 || i == 1 || i == 2 || i == 3);
        }
    }
}

/// The two messages that open a session, in the order in which they are sent. The payload of the
/// second one is put together by hand; it is the text of a flat object, and `Json::parse` reads
/// any such text.
pub fn handshake(timestamp_ms: u128) -> (r: (String, String))
    ensures
        r.0@ == open_message(timestamp_ms as nat),
        r.1@ == framed(session_json(timestamp_ms as nat)),
        is_flat_object(session_json(timestamp_ms as nat)),
{
    proof {
        session_is_an_object(timestamp_ms as nat);
    }
    let mut open = "0{\"sid\":\"sid_".to_owned();
    push_decimal(&mut open, timestamp_ms);
    open.append("\",\"upgrades\":[],\"pingInterval\":25000,\"pingTimeout\":5000}");
    let mut session = "{\"session_id\":\"cs_".to_owned();
    push_decimal(&mut session, timestamp_ms);
    session.append("\",\"timestamp\":");
    push_decimal(&mut session, timestamp_ms);
    session.append(",\"name\":\"crypto-terminal\",\"premium\":false}");
    (open, frame(session.as_str()))
}

/// A message on the chart socket.
#[derive(Debug, PartialEq, Eq)]
pub enum SocketMessage {
    Text(String),
    Binary(Vec<u8>),
    Ping(Vec<u8>),
    Pong(Vec<u8>),
    Close,
}

/// What to do about a message of the client.
#[derive(Debug, PartialEq, Eq)]
pub struct SocketStep {
    /// The chart that the client has created with it.
    pub chart_id: Option<String>,
    /// The answer, sent after the chart has been announced.
    pub reply: Option<SocketMessage>,
    /// Whether the client is done.
    pub done: bool,
}

/// A heartbeat.
pub open spec fn is_heartbeat(text: Seq<char>) -> bool {
    includes(text, "~h~"@)
}

/// A request for a chart, where it is no heartbeat.
pub open spec fn creates_chart(text: Seq<char>) -> bool {
    includes(text, "chart_create_session"@)
}

/// A request that concerns a series, where it is neither of the others.
pub open spec fn concerns_series(text: Seq<char>) -> bool {
    ||| includes(text, "resolve_symbol"@)
    ||| includes(text, "create_series"@)
    ||| includes(text, "modify_series"@)
}

/// The chart's name in a request for a chart: the first parameter, from the start of the parameter
/// list up to the next quote.
pub open spec fn is_chart_id(text: Seq<char>, id: Seq<char>) -> bool {
    exists|start: int, end: int|
        {
            &&& #[trigger] first_at(text, "\"p\":[\""@, start)
            &&& #[trigger] first_at(text.skip(start + 6), "\""@, end)
            &&& id == text.skip(start + 6).take(end)
        }
}

/// The chart name in a request for a chart.
pub fn chart_id(text: &str) -> (r: Option<String>)
    ensures
        match r {
            Some(id) => is_chart_id(text@, id@),
            None => forall|id: Seq<char>| !is_chart_id(text@, id),
        },
{
    let v = chars_of(text);
    match find(&v, &chars_of("\"p\":[\"")) {
        Some(start) => {
            proof {
                reveal_strlit("\"p\":[\"");
            }
            let n: usize = v.len();
            let rest = slice(&v, start + 6, n);
            assert(rest@ == text@.skip(start + 6));
            match find(&rest, &chars_of("\"")) {
                Some(end) => {
                    let id = slice(&rest, 0, end);
                    assert(id@ == text@.skip(start + 6).take(end as int));
                    assert(first_at(text@.skip(start + 6), "\""@, end as int));
                    Some(string_of(&id))
                },
                None => {
                    assert forall|id: Seq<char>| !is_chart_id(text@, id) by {
                        if is_chart_id(text@, id) {
                            let (s, e) = choose|s: int, e: int|
                                {
                                    &&& #[trigger] first_at(text@, "\"p\":[\""@, s)
                                    &&& #[trigger] first_at(text@.skip(s + 6), "\""@, e)
                                    &&& id == text@.skip(s + 6).take(e)
                                };
                            assert(s == start);
                            assert(occurs_at(rest@, "\""@, e));
                        }
                    }
                    None
                },
            }
        },
        None => {
            assert forall|start: int| !first_at(text@, "\"p\":[\""@, start) by {}
            None
        },
    }
}

/// A message with which the client creates a chart of this name.
pub open spec fn announces(message: SocketMessage, id: Seq<char>) -> bool {
    message matches SocketMessage::Text(text) && !is_heartbeat(text@) && creates_chart(text@)
        && is_chart_id(text@, id)
}

/// What a message of the client is answered with.
pub open spec fn answer(message: SocketMessage) -> Option<SocketMessage> {
    match message {
        SocketMessage::Text(text) => if is_heartbeat(text@) || creates_chart(text@)
            || concerns_series(text@) {
            Some(message)
        } else {
            None
        },
        SocketMessage::Ping(payload) => Some(SocketMessage::Pong(payload)),
        _ => None,
    }
}

/// Answers a message of the client: heartbeats and requests that are understood are sent back as
/// they are, a ping is answered with its own payload, and a close ends the session.
pub fn on_client_message(message: SocketMessage) -> (r: SocketStep)
    ensures
        r.done == (message is Close),
        r.reply == answer(message),
        match r.chart_id {
            Some(id) => announces(message, id@),
            None => forall|id: Seq<char>| !announces(message, id),
        },
{
    match message {
        SocketMessage::Text(text) => {
            if contains(text.as_str(), "~h~") {
                SocketStep {
                    chart_id: None,
                    reply: Some(SocketMessage::Text(text)),
                    done: false,
                }
            } else if contains(text.as_str(), "chart_create_session") {
                let chart_id = chart_id(text.as_str());
                SocketStep { chart_id, reply: Some(SocketMessage::Text(text)), done: false }
            } else if contains(text.as_str(), "resolve_symbol") || contains(
                text.as_str(),
                "create_series",
            ) || contains(text.as_str(), "modify_series") {
                SocketStep {
                    chart_id: None,
                    reply: Some(SocketMessage::Text(text)),
                    done: false,
                }
            } else {
                SocketStep { chart_id: None, reply: None, done: false }
            }
        },
        SocketMessage::Ping(payload) => SocketStep {
            chart_id: None,
            reply: Some(SocketMessage::Pong(payload)),
            done: false,
        },
        SocketMessage::Close => SocketStep { chart_id: None, reply: None, done: true },
        _ => SocketStep { chart_id: None, reply: None, done: false },
    }
}

/// The chart that updates are sent to, of those that the client has announced, in order: the
/// first one, or the fallback where there is none.
pub open spec fn chosen(announced: Seq<Seq<char>>) -> Seq<char> {
    if announced.len() > 0 {
        announced[0]
    } else {
        "cs_local"@
    }
}

/// The chart that updates are sent to: the first one that the client has announced, or the
/// fallback where none was announced in time.
pub fn chosen_chart(announced: Option<String>) -> (r: String)
    ensures
        r@ == chosen(
            match announced {
                Some(id) => seq![id@],
                None => Seq::empty(),
            },
        ),
{
    match announced {
        Some(id) => id,
        None => FALLBACK_CHART_ID.to_owned(),
    }
}

/// The first parameter of a request for a chart is found, whatever stands around it.
pub proof fn chart_name_is_found(before: Seq<char>, name: Seq<char>, after: Seq<char>)
    requires
        first_at(before + "\"p\":[\""@ + name + "\""@ + after, "\"p\":[\""@, before.len() as int),
        !name.contains('"'),
    ensures
        is_chart_id(before + "\"p\":[\""@ + name + "\""@ + after, name),
{
    reveal_strlit("\"p\":[\"");
    reveal_strlit("\"");
    let text = before + "\"p\":[\""@ + name + "\""@ + after;
    let start = before.len() as int;
    let rest = text.skip(start + 6);
    let end = name.len() as int;
    assert(rest =~= name + "\""@ + after);
    assert(rest.subrange(end, end + 1) =~= "\""@);
    assert forall|j: int| 0 <= j < end implies !occurs_at(rest, "\""@, j) by {
        if occurs_at(rest, "\""@, j) {
            assert(rest.subrange(j, j + 1)[0] == '"');
            assert(name[j] == '"');
        }
    }
    assert(first_at(rest, "\""@, end));
    assert(name =~= rest.take(end));
}

/// A request for a chart names one chart only.
pub proof fn chart_name_is_unique(text: Seq<char>, a: Seq<char>, b: Seq<char>)
    requires
        is_chart_id(text, a),
        is_chart_id(text, b),
    ensures
        a == b,
{
}

/// Every update goes to the first chart that the client has announced; later ones change nothing.
pub proof fn updates_keep_to_the_first_chart(
    announced: Seq<Seq<char>>,
    later: Seq<Seq<char>>,
    series: Seq<Doc>,
    values: Seq<Doc>,
    close_time: Doc,
)
    requires
        announced.len() > 0,
    ensures
        ({
            let chart = chosen(announced + later);
            &&& addressee(timescale_doc(chart, series)) == Some(announced[0])
            &&& addressee(du_doc(chart, values, close_time)) == Some(announced[0])
        }),
{
    reveal_strlit("m");
    reveal_strlit("p");
    assert("m"@[0] != "p"@[0]);
}

/// A text that holds a heartbeat, a request for a chart or a request that concerns a series, at
/// any place, is sent back as it is.
pub proof fn understood_text_is_sent_back(text: String, before: Seq<char>, after: Seq<char>)
    requires
        text@ == before + "~h~"@ + after || text@ == before + "chart_create_session"@ + after
            || text@ == before + "resolve_symbol"@ + after || text@ == before + "create_series"@
            + after || text@ == before + "modify_series"@ + after,
    ensures
        answer(SocketMessage::Text(text)) == Some(SocketMessage::Text(text)),
{
    part_is_included(before, "~h~"@, after);
    part_is_included(before, "chart_create_session"@, after);
    part_is_included(before, "resolve_symbol"@, after);
    part_is_included(before, "create_series"@, after);
    part_is_included(before, "modify_series"@, after);
}

/// Any other text is not answered.
pub proof fn other_text_is_not_answered(text: String)
    requires
        !includes(text@, "~h~"@),
        !includes(text@, "chart_create_session"@),
        !includes(text@, "resolve_symbol"@),
        !includes(text@, "create_series"@),
        !includes(text@, "modify_series"@),
    ensures
        answer(SocketMessage::Text(text)) is None,
{
}

/// A ping is answered with its own payload; bytes, pongs and the close are not answered, and none
/// of these creates a chart.
pub proof fn ping_is_answered(payload: Vec<u8>, id: Seq<char>)
    ensures
        answer(SocketMessage::Ping(payload)) == Some(SocketMessage::Pong(payload)),
        answer(SocketMessage::Binary(payload)) is None,
        answer(SocketMessage::Pong(payload)) is None,
        answer(SocketMessage::Close) is None,
        !announces(SocketMessage::Ping(payload), id),
        !announces(SocketMessage::Binary(payload), id),
        !announces(SocketMessage::Pong(payload), id),
        !announces(SocketMessage::Close, id),
{
}

/// A text creates the chart whose name is its first parameter exactly where it asks for a chart
/// and is no heartbeat.
pub proof fn created_chart_is_announced(
    text: String,
    before: Seq<char>,
    name: Seq<char>,
    after: Seq<char>,
    id: Seq<char>,
)
    requires
        text@ == before + "\"p\":[\""@ + name + "\""@ + after,
        first_at(text@, "\"p\":[\""@, before.len() as int),
        !name.contains('"'),
    ensures
        announces(SocketMessage::Text(text), id) == (id == name && includes(
            text@,
            "chart_create_session"@,
        ) && !includes(text@, "~h~"@)),
{
    chart_name_is_found(before, name, after);
    if announces(SocketMessage::Text(text), id) {
        chart_name_is_unique(text@, id, name);
    }
}

/// The two opening messages carry the time, whatever it is: in the session's name, in the chart
/// session's name and as a number.
pub proof fn handshake_carries_the_time(timestamp_ms: nat)
    ensures
        ({
            let sid = "0{\"sid\":\"sid_"@;
            let cs = "{\"session_id\":\"cs_"@;
            let ts = "\",\"timestamp\":"@;
            let time = decimal(timestamp_ms);
            &&& open_message(timestamp_ms) == sid + time
                + "\",\"upgrades\":[],\"pingInterval\":25000,\"pingTimeout\":5000}"@
            &&& session_json(timestamp_ms) == cs + time + ts + time
                + ",\"name\":\"crypto-terminal\",\"premium\":false}"@
        }),
{
}

/// A client that creates a chart has it announced under the name that it gave, and its request sent
/// back.
pub proof fn client_gets_its_chart(
    text: String,
    before: Seq<char>,
    name: Seq<char>,
    after: Seq<char>,
    step: SocketStep,
)
    requires
        call_ensures(on_client_message, (SocketMessage::Text(text),), step),
        text@ == before + "\"p\":[\""@ + name + "\""@ + after,
        first_at(text@, "\"p\":[\""@, before.len() as int),
        !name.contains('"'),
        includes(text@, "chart_create_session"@),
        !includes(text@, "~h~"@),
    ensures
        step.chart_id matches Some(id) && id@ == name,
        step.reply == Some(SocketMessage::Text(text)),
        !step.done,
{
    created_chart_is_announced(text, before, name, after, name);
    match step.chart_id {
        Some(id) => {
            created_chart_is_announced(text, before, name, after, id@);
        },
        None => {},
    }
}

} // verus!
