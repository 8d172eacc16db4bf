//! The proxy for chat completions: a stream of server-sent events that opens when the upstream
//! answers or when the first sign of life is due, is kept alive while the upstream thinks, and
//! reports errors as events. An upstream that cannot be reached before that is a bad gateway.

use crate::decimal::{decimal, push_decimal};
use crate::http::{
    bad_gateway, error_body, error_doc, header_views, is_header_value, is_success,
    valid_header_value, JsonReply,
};
use crate::json::{
    element, fits, is_exact, is_readable, json_parse, json_text, member, member_fits,
    no_members_fit, text_of, Doc, Json,
};
use crate::text::{first_at, occurs_at, truncate_for_error};
use vstd::prelude::*;
use vstd::string::*;
use vstd::utf8::*;

verus! {

/// How often a client is shown that its stream is alive, in seconds, and how long it waits for the
/// stream to open.
pub const SIGN_OF_LIFE_SECS: u64 = 5;

/// A request to the upstream, sent as a POST.
#[derive(Debug, PartialEq, Eq)]
pub struct NimRequest {
    pub url: String,
    pub headers: Vec<(String, String)>,
    /// The client's own authorization, where it can be sent.
    pub authorization: Option<Vec<u8>>,
    /// The client's payload.
    pub body: String,
}

/// The request that passes a client's payload on, under the client's own authorization.
pub fn nim_request(nim_base: &str, auth: Option<Vec<u8>>, payload: &Json) -> (r: NimRequest)
    ensures
        r.url@ == nim_base@ + "/chat/completions"@,
        header_views(r.headers@) == seq![
            ("Content-Type"@, "application/json"@),
            ("Accept"@, "text/event-stream"@),
            ("User-Agent"@, "OmniStream/1.0"@),
        ],
        r.authorization == match auth {
            Some(v) => if is_header_value(v@) {
                Some(v)
            } else {
                None
            },
            None => None,
        },
        r.body@ == json_text(payload@),
        is_readable(payload@) ==> json_parse(r.body@) is Some,
        is_exact(payload@) ==> json_parse(r.body@) == Some(payload@),
{
    let mut url = nim_base.to_owned();
    url.append("/chat/completions");
    let mut headers: Vec<(String, String)> = Vec::new();
    headers.push(("Content-Type".to_owned(), "application/json".to_owned()));
    headers.push(("Accept".to_owned(), "text/event-stream".to_owned()));
    headers.push(("User-Agent".to_owned(), "OmniStream/1.0".to_owned()));
    assert(header_views(headers@) =~= seq![
        ("Content-Type"@, "application/json"@),
        ("Accept"@, "text/event-stream"@),
        ("User-Agent"@, "OmniStream/1.0"@),
    ]);
    let authorization = match auth {
        Some(v) => if valid_header_value(&v) {
            Some(v)
        } else {
            None
        },
        None => None,
    };
    NimRequest { url, headers, authorization, body: payload.to_text() }
}

/// The headers under which the stream is sent.
pub open spec fn stream_headers() -> Seq<(Seq<char>, Seq<char>)> {
    seq![
        ("Content-Type"@, "text/event-stream"@),
        ("Cache-Control"@, "no-cache, no-transform"@),
        ("X-Accel-Buffering"@, "no"@),
    ]
}

/// The headers under which the stream is sent.
pub fn nim_response_headers() -> (r: Vec<(String, String)>)
    ensures
        header_views(r@) == stream_headers(),
{
    let mut r: Vec<(String, String)> = Vec::new();
    r.push(("Content-Type".to_owned(), "text/event-stream".to_owned()));
    r.push(("Cache-Control".to_owned(), "no-cache, no-transform".to_owned()));
    r.push(("X-Accel-Buffering".to_owned(), "no".to_owned()));
    assert(header_views(r@) =~= stream_headers());
    r
}

/// The document that shows an error as a piece of the answer.
pub open spec fn visible_doc(message: Seq<char>) -> Doc {
    let content = Doc::Text("\n\n\u{26a0} "@ + message);
    let choice = Doc::Object(
        Map::empty().insert("delta"@, Doc::Object(Map::empty().insert("content"@, content))),
    );
    Doc::Object(Map::empty().insert("choices"@, Doc::Array(seq![choice])))
}

fn visible_body(message: &str) -> (r: Json)
    ensures
        r@ == visible_doc(message@),
{
    let mut content = "\n\n\u{26a0} ".to_owned();
    content.append(message);
    let mut delta: Vec<(String, Json)> = Vec::new();
    Json::add_member(&mut delta, "content", Json::text(content.as_str()));
    let mut choice: Vec<(String, Json)> = Vec::new();
    Json::add_member(&mut choice, "delta", Json::Object(delta));
    let mut choices: Vec<Json> = Vec::new();
    Json::add_element(&mut choices, Json::Object(choice));
    let mut members: Vec<(String, Json)> = Vec::new();
    Json::add_member(&mut members, "choices", Json::Array(choices));
    let r = Json::Object(members);
    assert(r@ == visible_doc(message@)) by {
        let inner = Doc::Object(
            Map::empty().insert(
                "delta"@,
                Doc::Object(
                    Map::empty().insert("content"@, Doc::Text("\n\n\u{26a0} "@ + message@)),
                ),
            ),
        );
        assert(Json::docs(choices@) =~= seq![inner]);
    }
    r
}

/// The message under `error` in the data of an event.
pub open spec fn named_message(data: Seq<char>) -> Option<Seq<char>> {
    match json_parse(data) {
        Some(d) => text_of(member(d, "error"@)),
        None => None,
    }
}

/// The content of the first choice in the data of an event.
pub open spec fn shown_content(data: Seq<char>) -> Option<Seq<char>> {
    match json_parse(data) {
        Some(d) => match member(d, "choices"@) {
            Some(choices) => match element(choices, 0) {
                Some(choice) => match member(choice, "delta"@) {
                    Some(delta) => text_of(member(delta, "content"@)),
                    None => None,
                },
                None => None,
            },
            None => None,
        },
        None => None,
    }
}

proof fn error_doc_is_exact(message: Seq<char>)
    ensures
        is_exact(error_doc(message)),
        text_of(member(error_doc(message), "error"@)) == Some(message),
{
    reveal_strlit("ok");
    reveal_strlit("error");
    let m = Map::empty();
    no_members_fit(127, false);
    member_fits(m, "ok"@, Doc::Bool(false), 127, false);
    member_fits(m.insert("ok"@, Doc::Bool(false)), "error"@, Doc::Text(message), 127, false);
}

proof fn visible_doc_is_exact(message: Seq<char>)
    ensures
        is_exact(visible_doc(message)),
{
    reveal_strlit("delta");
    reveal_strlit("content");
    reveal_strlit("choices");
    let m = Map::empty();
    let content = Doc::Text("\n\n\u{26a0} "@ + message);
    no_members_fit(124, false);
    member_fits(m, "content"@, content, 124, false);
    let delta = Doc::Object(m.insert("content"@, content));
    no_members_fit(125, false);
    member_fits(m, "delta"@, delta, 125, false);
    let choices = seq![Doc::Object(m.insert("delta"@, delta))];
    assert forall|i: int| 0 <= i < choices.len() implies fits(
        #[trigger] choices[i],
        125,
        false,
    ) by {}
    assert(fits(Doc::Array(choices), 126, false));
    no_members_fit(127, false);
    member_fits(m, "choices"@, Doc::Array(choices), 127, false);
}

/// The comment that opens the stream.
pub open spec fn connected_event() -> Seq<char> {
    ": connected\n\n"@
}

/// The comment that keeps the stream alive.
pub open spec fn ping_event() -> Seq<char> {
    ": ping\n\n"@
}

/// The event that names an error.
pub open spec fn error_event(message: Seq<char>) -> Seq<char> {
    "event: error\ndata: "@ + json_text(error_doc(message)) + "\n\n"@
}

/// The event that shows an error as a piece of the answer.
pub open spec fn visible_event(message: Seq<char>) -> Seq<char> {
    "data: "@ + json_text(visible_doc(message)) + "\n\n"@
}

/// The event that ends an answer.
pub open spec fn done_event() -> Seq<char> {
    "data: [DONE]\n\n"@
}

/// The events that report an error, in order.
pub open spec fn error_events(message: Seq<char>) -> Seq<Seq<u8>> {
    seq![
        encode_utf8(error_event(message)),
        encode_utf8(visible_event(message)),
        encode_utf8(done_event()),
    ]
}

/// A text that is one event: the blank line that ends an event stands at its end and nowhere
/// before.
pub open spec fn is_one_event(s: Seq<char>) -> bool {
    first_at(s, "\n\n"@, s.len() - 2)
}

proof fn line_makes_one_event(head: Seq<char>, line: Seq<char>)
    requires
        head.len() > 0,
        head.last() != '\n',
        forall|i: int|
            0 <= i < head.len() - 1 ==> !(head[i] == '\n' && #[trigger] head[i + 1] == '\n'),
        !line.contains('\n'),
    ensures
        is_one_event(head + line + "\n\n"@),
{
    reveal_strlit("\n\n");
    let s = head + line + "\n\n"@;
    let n = s.len() - 2;
    assert(s.subrange(n, n + 2) =~= "\n\n"@);
    assert forall|j: int| 0 <= j < n implies !occurs_at(s, "\n\n"@, j) by {
        if occurs_at(s, "\n\n"@, j) {
            let w = s.subrange(j, j + 2);
            assert(w[0] == '\n' && w[1] == '\n');
            assert(s[j] == '\n' && s[j + 1] == '\n');
            if j >= head.len() {
                assert(line[j - head.len()] == '\n');
            } else if j + 1 < head.len() {
                assert(head[j + 1] == '\n');
            } else {
                assert(head.last() == '\n');
            }
        }
    }
}

/// The views of a list of byte strings.
pub open spec fn byte_views(v: Seq<Vec<u8>>) -> Seq<Seq<u8>> {
    Seq::new(v.len(), |i: int| v[i]@)
}

/// Opens the stream.
pub fn connected() -> (r: Vec<u8>)
    ensures
        r@ == encode_utf8(connected_event()),
{
    ": connected\n\n".as_bytes_vec()
}

/// A text without line breaks.
pub open spec fn is_one_line(s: Seq<char>) -> bool {
    !s.contains('\n') && !s.contains('\r')
}

/// Reports an error as events, each with its data on one line. Reading the data gives the message
/// back.
pub fn backend_error(message: &str) -> (r: Vec<Vec<u8>>)
    ensures
        byte_views(r@) == error_events(message@),
        is_one_event(error_event(message@)),
        is_one_event(visible_event(message@)),
        is_one_event(done_event()),
        is_one_line(json_text(error_doc(message@))),
        is_one_line(json_text(visible_doc(message@))),
        named_message(json_text(error_doc(message@))) == Some(message@),
        shown_content(json_text(visible_doc(message@))) == Some("\n\n\u{26a0} "@ + message@),
{
    proof {
        error_doc_is_exact(message@);
        visible_doc_is_exact(message@);
    }
    let mut named = "event: error\ndata: ".to_owned();
    let named_text = error_body(message).to_text();
    named.append(named_text.as_str());
    named.append("\n\n");
    let mut shown = "data: ".to_owned();
    let shown_text = visible_body(message).to_text();
    shown.append(shown_text.as_str());
    shown.append("\n\n");
    let mut r: Vec<Vec<u8>> = Vec::new();
    r.push(named.as_str().as_bytes_vec());
    r.push(shown.as_str().as_bytes_vec());
    r.push("data: [DONE]\n\n".as_bytes_vec());
    assert(byte_views(r@) =~= error_events(message@));
    proof {
        reveal_strlit("event: error\ndata: ");
        reveal_strlit("data: ");
        reveal_strlit("data: [DONE]\n\n");
        reveal_strlit("\n\n");
        line_makes_one_event("event: error\ndata: "@, named_text@);
        line_makes_one_event("data: "@, shown_text@);
        let done = "[DONE]"@;
        reveal_strlit("[DONE]");
        assert(!done.contains('\n'));
        line_makes_one_event("data: "@, done);
        assert("data: "@ + done + "\n\n"@ =~= done_event());
    }
    r
}

/// The reply to a request for a completion.
#[derive(Debug, PartialEq)]
pub enum NimReply {
    /// A stream of events under this status and these headers, which starts with these bytes.
    Stream { status: u16, headers: Vec<(String, String)>, first: Vec<u8> },
    /// No stream.
    Failure(JsonReply),
}

/// Starts the reply. Where the upstream could not be reached before anything was sent, for the
/// cause that is given, it is a bad gateway; otherwise a stream is opened with success, whatever
/// may still happen.
pub fn nim_reply(unreached: Option<String>) -> (r: NimReply)
    ensures
        match unreached {
            None => r matches NimReply::Stream { status, headers, first } && status == 200
                && header_views(headers@) == stream_headers() && first@ == encode_utf8(
                connected_event(),
            ),
            Some(cause) => r matches NimReply::Failure(reply) && reply.status == 502
                && reply.body@ == error_doc("NIM request failed: "@ + cause@),
        },
{
    match unreached {
        None => NimReply::Stream {
            status: 200,
            headers: nim_response_headers(),
            first: connected(),
        },
        Some(cause) => {
            let mut message = "NIM request failed: ".to_owned();
            message.append(cause.as_str());
            NimReply::Failure(bad_gateway(message.as_str()))
        },
    }
}

/// How far a completion has come.
#[derive(Debug, PartialEq, Eq)]
pub enum NimState {
    /// The upstream has not answered yet.
    Waiting,
    /// The upstream has refused with this status; its explanation is being read.
    Refused(u16),
    /// The upstream's answer is being passed on.
    Streaming,
    /// Nothing more is sent.
    Closed,
}

/// What happens to a completion.
#[derive(Debug, PartialEq, Eq)]
pub enum NimEvent {
    /// It is time for a sign of life.
    Tick,
    /// The upstream has answered with this status.
    Answered(u16),
    /// The upstream could not be asked, for this cause.
    RequestFailed(String),
    /// The explanation of a refusal, empty where it could not be read.
    Explained(String),
    /// A piece of the answer.
    Chunk(Vec<u8>),
    /// The answer broke off, for this cause.
    StreamFailed(String),
    /// The answer is complete.
    StreamEnded,
    /// The client takes nothing more.
    ClientGone,
}

/// The message that reports a refusal.
pub open spec fn refusal_message(status: u16, explanation: Seq<char>) -> Seq<char> {
    "NIM returned HTTP "@ + decimal(status as nat) + ": "@ + explanation.take(
        if explanation.len() <= 400 {
            explanation.len() as int
        } else {
            400
        },
    )
}

/// The state after an event.
pub open spec fn next_state(state: NimState, event: NimEvent) -> NimState {
    match (state, event) {
        (_, NimEvent::ClientGone) => NimState::Closed,
        (NimState::Waiting, NimEvent::Answered(status)) => if is_success(status) {
            NimState::Streaming
        } else {
            NimState::Refused(status)
        },
        (NimState::Waiting, NimEvent::RequestFailed(_)) => NimState::Closed,
        (NimState::Refused(_), NimEvent::Explained(_)) => NimState::Closed,
        (NimState::Streaming, NimEvent::StreamFailed(_)) => NimState::Closed,
        (NimState::Streaming, NimEvent::StreamEnded) => NimState::Closed,
        _ => state,
    }
}

/// What is sent to the client at an event.
pub open spec fn sends(state: NimState, event: NimEvent) -> Seq<Seq<u8>> {
    match (state, event) {
        (NimState::Waiting, NimEvent::Tick) => seq![encode_utf8(ping_event())],
        (NimState::Streaming, NimEvent::Tick) => seq![encode_utf8(ping_event())],
        (NimState::Waiting, NimEvent::RequestFailed(cause)) => error_events(
            "NIM request failed: "@ + cause@,
        ),
        (NimState::Refused(status), NimEvent::Explained(text)) => error_events(
            refusal_message(status, text@),
        ),
        (NimState::Streaming, NimEvent::Chunk(bytes)) => seq![bytes@],
        (NimState::Streaming, NimEvent::StreamFailed(cause)) => error_events(
            "NIM stream error: "@ + cause@,
        ),
        _ => Seq::empty(),
    }
}

fn failure_events(prefix: &str, cause: &str) -> (r: Vec<Vec<u8>>)
    ensures
        byte_views(r@) == error_events(prefix@ + cause@),
{
    let mut message = prefix.to_owned();
    message.append(cause);
    backend_error(message.as_str())
}

fn one(bytes: Vec<u8>) -> (r: Vec<Vec<u8>>)
    ensures
        byte_views(r@) == seq![bytes@],
{
    let mut r: Vec<Vec<u8>> = Vec::new();
    r.push(bytes);
    assert(byte_views(r@) =~= seq![bytes@]);
    r
}

impl NimState {
    /// Goes on with an event: what is sent to the client because of it, in order.
    pub fn on_event(&mut self, event: NimEvent) -> (r: Vec<Vec<u8>>)
        ensures
            *final(self) == next_state(*old(self), event),
            byte_views(r@) == sends(*old(self), event),
    {
        let nothing: Vec<Vec<u8>> = Vec::new();
        assert(byte_views(nothing@) =~= Seq::<Seq<u8>>::empty());
        match event {
            NimEvent::ClientGone => {
                *self = NimState::Closed;
                nothing
            },
            NimEvent::Tick => match self {
                NimState::Waiting => one(": ping\n\n".as_bytes_vec()),
                NimState::Streaming => one(": ping\n\n".as_bytes_vec()),
                _ => nothing,
            },
            NimEvent::Answered(status) => {
                match self {
                    NimState::Waiting => {
                        *self = if status >= 200 && status < 300 {
                            NimState::Streaming
                        } else {
                            NimState::Refused(status)
                        };
                    },
                    _ => {},
                }
                nothing
            },
            NimEvent::RequestFailed(cause) => match self {
                NimState::Waiting => {
                    *self = NimState::Closed;
                    failure_events("NIM request failed: ", cause.as_str())
                },
                _ => nothing,
            },
            NimEvent::Explained(text) => match self {
                NimState::Refused(status) => {
                    let mut message = "NIM returned HTTP ".to_owned();
                    push_decimal(&mut message, *status as u128);
                    message.append(": ");
                    message.append(truncate_for_error(text.as_str()).as_str());
                    *self = NimState::Closed;
                    backend_error(message.as_str())
                },
                _ => nothing,
            },
            NimEvent::Chunk(bytes) => match self {
                NimState::Streaming => one(bytes),
                _ => nothing,
            },
            NimEvent::StreamFailed(cause) => match self {
                NimState::Streaming => {
                    *self = NimState::Closed;
                    failure_events("NIM stream error: ", cause.as_str())
                },
                _ => nothing,
            },
            NimEvent::StreamEnded => {
                match self {
                    NimState::Streaming => {
                        *self = NimState::Closed;
                    },
                    _ => {},
                }
                nothing
            },
        }
    }
}

/// The state after some events.
pub open spec fn state_after(state: NimState, events: Seq<NimEvent>) -> NimState
    decreases events.len(),
{
    if events.len() == 0 {
        state
    } else {
        next_state(state_after(state, events.drop_last()), events.last())
    }
}

/// All that is sent to the client over some events.
pub open spec fn transcript(state: NimState, events: Seq<NimEvent>) -> Seq<Seq<u8>>
    decreases events.len(),
{
    if events.len() == 0 {
        Seq::empty()
    } else {
        transcript(state, events.drop_last()) + sends(
            state_after(state, events.drop_last()),
            events.last(),
        )
    }
}

/// What happens over some events happens over the first part of them and then over the rest.
pub proof fn events_in_parts(state: NimState, a: Seq<NimEvent>, b: Seq<NimEvent>)
    ensures
        state_after(state, a + b) == state_after(state_after(state, a), b),
        transcript(state, a + b) == transcript(state, a) + transcript(state_after(state, a), b),
    decreases b.len(),
{
    if b.len() == 0 {
        assert(a + b =~= a);
        assert(transcript(state, a + b) =~= transcript(state, a) + transcript(
            state_after(state, a),
            b,
        ));
    } else {
        assert((a + b).drop_last() =~= a + b.drop_last());
        events_in_parts(state, a, b.drop_last());
        assert(transcript(state, a + b) =~= transcript(state, a) + transcript(
            state_after(state, a),
            b,
        ));
    }
}

proof fn single_event(state: NimState, event: NimEvent)
    ensures
        state_after(state, seq![event]) == next_state(state, event),
        transcript(state, seq![event]) == sends(state, event),
{
    let events = seq![event];
    assert(events.drop_last() =~= Seq::<NimEvent>::empty());
    assert(state_after(state, events.drop_last()) == state);
    assert(transcript(state, events.drop_last()) =~= Seq::<Seq<u8>>::empty());
    assert(transcript(state, events) =~= sends(state, event));
}

/// Nothing but signs of life that are due.
pub open spec fn are_ticks(events: Seq<NimEvent>) -> bool {
    forall|i: int| 0 <= i < events.len() ==> #[trigger] events[i] is Tick
}

/// Nothing but pieces of the answer, and signs of life that are due.
pub open spec fn are_ticks_or_chunks(events: Seq<NimEvent>) -> bool {
    forall|i: int| 0 <= i < events.len() ==> (#[trigger] events[i] is Tick || events[i] is Chunk)
}

/// Each piece of an answer as it is, and a ping for each sign of life, in order.
pub open spec fn passed_on(events: Seq<NimEvent>) -> Seq<Seq<u8>> {
    Seq::new(
        events.len(),
        |i: int|
            match events[i] {
                NimEvent::Chunk(bytes) => bytes@,
                _ => encode_utf8(ping_event()),
            },
    )
}

/// While the upstream is waited for, the client gets a ping for each sign of life.
pub proof fn waiting_pings(events: Seq<NimEvent>)
    requires
        are_ticks(events),
    ensures
        state_after(NimState::Waiting, events) == NimState::Waiting,
        transcript(NimState::Waiting, events) == passed_on(events),
    decreases events.len(),
{
    if events.len() > 0 {
        let front = events.drop_last();
        assert forall|i: int| 0 <= i < front.len() implies #[trigger] front[i] is Tick by {
            assert(front[i] == events[i]);
        }
        waiting_pings(front);
        assert(events[events.len() - 1] == events.last());
    }
    assert(transcript(NimState::Waiting, events) =~= passed_on(events));
}

/// While an answer streams, every piece of it reaches the client as it is and in order, with
/// nothing but signs of life between.
pub proof fn streaming_passes_every_chunk(events: Seq<NimEvent>)
    requires
        are_ticks_or_chunks(events),
    ensures
        state_after(NimState::Streaming, events) == NimState::Streaming,
        transcript(NimState::Streaming, events) == passed_on(events),
    decreases events.len(),
{
    if events.len() > 0 {
        let front = events.drop_last();
        assert forall|i: int| 0 <= i < front.len() implies (#[trigger] front[i] is Tick
            || front[i] is Chunk) by {
            assert(front[i] == events[i]);
        }
        streaming_passes_every_chunk(front);
        assert(events[events.len() - 1] == events.last());
    }
    assert(transcript(NimState::Streaming, events) =~= passed_on(events));
}

/// The report of how an answer ended: nothing where it is complete.
pub open spec fn end_report(end: NimEvent) -> Seq<Seq<u8>> {
    match end {
        NimEvent::StreamFailed(cause) => error_events("NIM stream error: "@ + cause@),
        _ => Seq::empty(),
    }
}

/// The whole run of a completion that the upstream takes on: pings while it is waited for, then
/// every piece of the answer as it is and in order with pings between, then nothing more where
/// the answer is complete, and a report where it broke off. The completion is then closed.
pub proof fn answered_run(
    waiting: Seq<NimEvent>,
    status: u16,
    streaming: Seq<NimEvent>,
    end: NimEvent,
)
    requires
        are_ticks(waiting),
        200 <= status <= 299,
        are_ticks_or_chunks(streaming),
        end is StreamEnded || end is StreamFailed,
    ensures
        ({
            let events = waiting + seq![NimEvent::Answered(status)] + streaming + seq![end];
            &&& state_after(NimState::Waiting, events) == NimState::Closed
            &&& transcript(NimState::Waiting, events) == passed_on(waiting) + passed_on(streaming)
                + end_report(end)
        }),
{
    let answered = seq![NimEvent::Answered(status)];
    waiting_pings(waiting);
    streaming_passes_every_chunk(streaming);
    single_event(NimState::Waiting, NimEvent::Answered(status));
    single_event(NimState::Streaming, end);
    events_in_parts(NimState::Waiting, waiting, answered);
    events_in_parts(NimState::Waiting, waiting + answered, streaming);
    events_in_parts(NimState::Waiting, waiting + answered + streaming, seq![end]);
    assert(transcript(
        NimState::Waiting,
        waiting + answered + streaming + seq![end],
    ) =~= passed_on(waiting) + passed_on(streaming) + end_report(end));
}

/// The whole run of a completion that the upstream refuses: pings while it is waited for, then a
/// report with the status and the explanation. The completion is then closed.
pub proof fn refused_run(waiting: Seq<NimEvent>, status: u16, explanation: String)
    requires
        are_ticks(waiting),
        status < 200 || status > 299,
    ensures
        ({
            let events = waiting + seq![NimEvent::Answered(status)] + seq![
                NimEvent::Explained(explanation),
            ];
            &&& state_after(NimState::Waiting, events) == NimState::Closed
            &&& transcript(NimState::Waiting, events) == passed_on(waiting) + error_events(
                refusal_message(status, explanation@),
            )
        }),
{
    let answered = seq![NimEvent::Answered(status)];
    let explained = seq![NimEvent::Explained(explanation)];
    waiting_pings(waiting);
    single_event(NimState::Waiting, NimEvent::Answered(status));
    single_event(NimState::Refused(status), NimEvent::Explained(explanation));
    events_in_parts(NimState::Waiting, waiting, answered);
    events_in_parts(NimState::Waiting, waiting + answered, explained);
    assert(transcript(NimState::Waiting, waiting + answered + explained) =~= passed_on(waiting)
        + error_events(refusal_message(status, explanation@)));
}

/// The whole run of a completion whose upstream cannot be reached once the stream is open: pings
/// while it is waited for, then a report with the cause. The completion is then closed.
pub proof fn unreached_run(waiting: Seq<NimEvent>, cause: String)
    requires
        are_ticks(waiting),
    ensures
        ({
            let events = waiting + seq![NimEvent::RequestFailed(cause)];
            &&& state_after(NimState::Waiting, events) == NimState::Closed
            &&& transcript(NimState::Waiting, events) == passed_on(waiting) + error_events(
                "NIM request failed: "@ + cause@,
            )
        }),
{
    waiting_pings(waiting);
    single_event(NimState::Waiting, NimEvent::RequestFailed(cause));
    events_in_parts(NimState::Waiting, waiting, seq![NimEvent::RequestFailed(cause)]);
}

/// Once the client takes nothing more, nothing more is sent, whatever happens.
pub proof fn gone_client_gets_nothing(state: NimState, later: Seq<NimEvent>)
    ensures
        state_after(state, seq![NimEvent::ClientGone] + later) == NimState::Closed,
        transcript(state, seq![NimEvent::ClientGone] + later) == Seq::<Seq<u8>>::empty(),
{
    single_event(state, NimEvent::ClientGone);
    closed_is_silent(later);
    events_in_parts(state, seq![NimEvent::ClientGone], later);
    assert(transcript(state, seq![NimEvent::ClientGone] + later) =~= Seq::<Seq<u8>>::empty());
}

/// Once closed, a completion sends nothing more.
pub proof fn closed_is_silent(events: Seq<NimEvent>)
    ensures
        state_after(NimState::Closed, events) == NimState::Closed,
        transcript(NimState::Closed, events) == Seq::<Seq<u8>>::empty(),
    decreases events.len(),
{
    if events.len() > 0 {
        closed_is_silent(events.drop_last());
        assert(transcript(NimState::Closed, events) =~= Seq::<Seq<u8>>::empty());
    }
}

/// A failure, a refusal and a break are each reported: the report ends with the end of the
/// answer, and the completion is then closed.
pub proof fn every_failure_is_reported(status: u16, cause: String)
    ensures
        ({
            let failed = NimEvent::RequestFailed(cause);
            let explained = NimEvent::Explained(cause);
            let broken = NimEvent::StreamFailed(cause);
            &&& next_state(NimState::Waiting, failed) == NimState::Closed
            &&& next_state(NimState::Refused(status), explained) == NimState::Closed
            &&& next_state(NimState::Streaming, broken) == NimState::Closed
            &&& sends(NimState::Waiting, failed).last() == encode_utf8(done_event())
            &&& sends(NimState::Refused(status), explained).last() == encode_utf8(done_event())
            &&& sends(NimState::Streaming, broken).last() == encode_utf8(done_event())
        }),
{
}

/// An answer is streamed exactly where its status is from 200 to 299; any other answer is a
/// refusal, under its status. Nothing is sent for the answer itself.
pub proof fn answer_by_its_number(status: u16)
    ensures
        200 <= status <= 299 ==> next_state(NimState::Waiting, NimEvent::Answered(status))
            == NimState::Streaming,
        status < 200 || status > 299 ==> next_state(NimState::Waiting, NimEvent::Answered(status))
            == NimState::Refused(status),
        sends(NimState::Waiting, NimEvent::Answered(status)) == Seq::<Seq<u8>>::empty(),
{
}

/// An answer with any status below 200 or from 300 on ends in a report that gives the status and
/// the explanation, and none of it is passed on as a piece of an answer.
pub proof fn refusal_is_reported_by_number(status: u16, bytes: Vec<u8>, explanation: String)
    requires
        status < 200 || status > 299,
    ensures
        ({
            let events = seq![
                NimEvent::Answered(status),
                NimEvent::Chunk(bytes),
                NimEvent::Explained(explanation),
            ];
            &&& state_after(NimState::Waiting, events) == NimState::Closed
            &&& transcript(NimState::Waiting, events) == error_events(
                refusal_message(status, explanation@),
            )
        }),
{
    let a = NimEvent::Answered(status);
    let b = NimEvent::Chunk(bytes);
    let c = NimEvent::Explained(explanation);
    single_event(NimState::Waiting, a);
    single_event(NimState::Refused(status), b);
    single_event(NimState::Refused(status), c);
    events_in_parts(NimState::Waiting, seq![a], seq![b]);
    events_in_parts(NimState::Waiting, seq![a] + seq![b], seq![c]);
    assert(seq![a] + seq![b] + seq![c] =~= seq![a, b, c]);
    assert(transcript(NimState::Waiting, seq![a, b, c]) =~= error_events(
        refusal_message(status, explanation@),
    ));
}

/// The report of a refusal gives the status and an explanation of up to 400 characters whole, and
/// of a longer one the first 400 characters.
pub proof fn refusal_gives_status_and_explanation(status: u16, shown: Seq<char>, more: Seq<char>)
    requires
        shown.len() <= 400,
        more.len() > 0 ==> shown.len() == 400,
    ensures
        refusal_message(status, shown + more) == "NIM returned HTTP "@ + decimal(status as nat)
            + ": "@ + shown,
{
    let all = shown + more;
    let n = if all.len() <= 400 {
        all.len() as int
    } else {
        400
    };
    assert(all.take(n) =~= shown);
}

/// Signs of life are pings, while the upstream is waited for and while it answers; they change
/// nothing, and after a refusal or at the end there are none.
pub proof fn signs_of_life_are_pings(state: NimState)
    ensures
        next_state(state, NimEvent::Tick) == state,
        state is Waiting || state is Streaming ==> sends(state, NimEvent::Tick) == seq![
            encode_utf8(": ping\n\n"@),
        ],
        state is Refused || state is Closed ==> sends(state, NimEvent::Tick) == Seq::<
            Seq<u8>,
        >::empty(),
{
}

/// A piece of the answer is passed on as it is while the answer streams, however long it is, and
/// changes nothing; at any other time it is dropped.
pub proof fn chunk_is_passed_as_it_is(state: NimState, bytes: Vec<u8>)
    ensures
        next_state(state, NimEvent::Chunk(bytes)) == state,
        state is Streaming ==> sends(state, NimEvent::Chunk(bytes)) == seq![bytes@],
        !(state is Streaming) ==> sends(state, NimEvent::Chunk(bytes)) == Seq::<Seq<u8>>::empty(),
{
}

/// What is passed on of some events is passed on of each, in order.
pub proof fn events_are_passed_one_by_one(events: Seq<NimEvent>, bytes: Vec<u8>)
    ensures
        passed_on(events.push(NimEvent::Chunk(bytes))) == passed_on(events).push(bytes@),
        passed_on(events.push(NimEvent::Tick)) == passed_on(events).push(
            encode_utf8(": ping\n\n"@),
        ),
        passed_on(Seq::empty()) == Seq::<Seq<u8>>::empty(),
{
    assert(passed_on(events.push(NimEvent::Chunk(bytes))) =~= passed_on(events).push(bytes@));
    assert(passed_on(events.push(NimEvent::Tick)) =~= passed_on(events).push(
        encode_utf8(": ping\n\n"@),
    ));
}

/// A report is three events: the error under its name, the error shown as a piece of the answer,
/// and the end of the answer. Each message is given whole.
pub proof fn report_is_three_events(message: Seq<char>)
    ensures
        error_events(message).len() == 3,
        error_events(message)[0] == encode_utf8(
            "event: error\ndata: "@ + json_text(error_doc(message)) + "\n\n"@,
        ),
        error_events(message)[1] == encode_utf8(
            "data: "@ + json_text(visible_doc(message)) + "\n\n"@,
        ),
        error_events(message)[2] == encode_utf8("data: [DONE]\n\n"@),
        member(error_doc(message), "error"@) == Some(Doc::Text(message)),
        member(error_doc(message), "ok"@) == Some(Doc::Bool(false)),
{
    reveal_strlit("ok");
    reveal_strlit("error");
    assert("ok"@.len() != "error"@.len());
}

/// The shown error is the content of the one choice, behind a blank line and a warning sign, and
/// nothing else is said with it.
pub proof fn shown_error_is_the_content(message: Seq<char>, other: Seq<char>)
    ensures
        ({
            let content = Doc::Text("\n\n\u{26a0} "@ + message);
            let d = visible_doc(message);
            &&& other != "choices"@ ==> member(d, other) is None
            &&& member(d, "choices"@) matches Some(Doc::Array(choices)) && choices.len() == 1 && {
                &&& member(choices[0], "delta"@) matches Some(delta) && {
                    &&& member(delta, "content"@) == Some(content)
                    &&& other != "content"@ ==> member(delta, other) is None
                }
                &&& other != "delta"@ ==> member(choices[0], other) is None
            }
        }),
{
}

/// The views of a list of byte strings are the views of each.
pub proof fn byte_views_are_elementwise(v: Seq<Vec<u8>>, i: int)
    requires
        0 <= i < v.len(),
    ensures
        byte_views(v).len() == v.len(),
        byte_views(v)[i] == v[i]@,
{
}

/// A client's payload goes to the completion path of the upstream as it is, under the client's own
/// authorization and no other.
pub proof fn payload_is_forwarded(
    nim_base: &str,
    auth: Vec<u8>,
    payload: &Json,
    r: NimRequest,
    anonymous: NimRequest,
)
    requires
        call_ensures(nim_request, (nim_base, Some(auth), payload), r),
        call_ensures(nim_request, (nim_base, None::<Vec<u8>>, payload), anonymous),
    ensures
        r.body@ == json_text(payload@),
        r.url@ == nim_base@ + "/chat/completions"@,
        is_header_value(auth@) ==> r.authorization == Some(auth),
        anonymous.authorization is None,
        anonymous.body@ == r.body@,
        anonymous.url@ == r.url@,
{
}

/// An upstream that could not be reached before anything was sent is a bad gateway that gives the
/// cause whole, and any other request is answered with a stream.
pub proof fn unreached_upstream_is_reported(cause: String, failed: NimReply, opened: NimReply)
    requires
        call_ensures(nim_reply, (Some(cause),), failed),
        call_ensures(nim_reply, (None::<String>,), opened),
    ensures
        failed matches NimReply::Failure(reply) && reply.status == 502 && member(
            reply.body@,
            "error"@,
        ) == Some(Doc::Text("NIM request failed: "@ + cause@)),
        opened matches NimReply::Stream { status, .. } && status == 200,
{
    report_is_three_events("NIM request failed: "@ + cause@);
}

} // verus!
