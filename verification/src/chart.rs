//! Saving and loading chart state.

use crate::json::{is_exact, json_parse, json_text, member, text_of, Doc, Json};
use vstd::prelude::*;

verus! {

/// How long a saved state is kept, in seconds.
pub const CHART_TTL_SECS: u64 = 2592000;

/// A write to the store, and the status to reply with once it has been tried.
#[derive(Debug, PartialEq, Eq)]
pub struct ChartWrite {
    pub key: String,
    pub value: String,
    pub ttl_secs: u64,
    pub status: u16,
}

/// A reply with the loaded state, where there is one.
#[derive(Debug, PartialEq, Eq)]
pub struct ChartReply {
    pub status: u16,
    pub state: Option<String>,
}

/// The session under which a payload is saved: the one it names, or the shared one.
pub open spec fn session_key(payload: Doc) -> Seq<char> {
    match text_of(member(payload, "session_id"@)) {
        Some(id) => id,
        None => "global_tv_state"@,
    }
}

/// The state that a payload carries where it is not given as text: a member, or the payload itself.
pub open spec fn state_doc(payload: Doc) -> Doc {
    match member(payload, "state"@) {
        Some(state) => state,
        None => payload,
    }
}

/// The state that a payload carries, as text: given as such, or written as JSON.
pub open spec fn state_text(payload: Doc) -> Seq<char> {
    match text_of(member(payload, "state_json"@)) {
        Some(text) => text,
        None => json_text(state_doc(payload)),
    }
}

/// Saves the state of a payload; refuses where the store cannot be reached.
pub fn save_chart_state(store_reached: bool, payload: &Json) -> (r: Result<ChartWrite, u16>)
    ensures
        match r {
            Ok(write) => {
                &&& store_reached
                &&& write.key@ == session_key(payload@)
                &&& write.value@ == state_text(payload@)
                &&& text_of(member(payload@, "state_json"@)) is None && is_exact(
                    state_doc(payload@),
                ) ==> json_parse(write.value@) == Some(state_doc(payload@))
                &&& write.ttl_secs == 2592000
                &&& write.status == 200
            },
            Err(status) => !store_reached && status == 500,
        },
{
    if !store_reached {
        return Err(500);
    }
    let key = match payload.get("session_id") {
        Some(v) => match v.as_text() {
            Some(id) => id.as_str().to_owned(),
            None => "global_tv_state".to_owned(),
        },
        None => "global_tv_state".to_owned(),
    };
    let given = match payload.get("state_json") {
        Some(v) => v.as_text(),
        None => None,
    };
    let value = match given {
        Some(text) => text.as_str().to_owned(),
        None => match payload.get("state") {
            Some(state) => state.to_text(),
            None => payload.to_text(),
        },
    };
    Ok(ChartWrite { key, value, ttl_secs: CHART_TTL_SECS, status: 200 })
}

/// The key to read for a session; refuses where the store cannot be reached, and then where no
/// session is named.
pub fn load_chart_state(store_reached: bool, session_id: Option<String>) -> (r: Result<
    String,
    u16,
>)
    ensures
        match r {
            Ok(key) => store_reached && (session_id matches Some(id) && key@ == id@),
            Err(status) => if !store_reached {
                status == 500
            } else {
                session_id is None && status == 400
            },
        },
{
    if !store_reached {
        return Err(500);
    }
    match session_id {
        Some(id) => Ok(id),
        None => Err(400),
    }
}

/// The reply to what was found in the store.
pub open spec fn found_reply(found: Option<Seq<char>>) -> (u16, Option<Seq<char>>) {
    match found {
        Some(state) => (200, Some(state)),
        None => (404, None),
    }
}

/// Replies with what was found in the store.
pub fn loaded_reply(found: Option<String>) -> (r: ChartReply)
    ensures
        (
            r.status,
            match r.state {
                Some(s) => Some(s@),
                None => None,
            },
        ) == found_reply(
            match found {
                Some(s) => Some(s@),
                None => None,
            },
        ),
{
    match found {
        Some(state) => ChartReply { status: 200, state: Some(state) },
        None => ChartReply { status: 404, state: None },
    }
}

/// What a store holds under a key.
pub open spec fn held(store: Map<Seq<char>, Seq<char>>, key: Seq<char>) -> Option<Seq<char>> {
    if store.contains_key(key) {
        Some(store[key])
    } else {
        None
    }
}

/// Loading the session of a payload, from a store that has taken the write, replies with the
/// state that the payload carried, and any other session is replied to as before.
pub proof fn saved_state_is_loaded(
    store: Map<Seq<char>, Seq<char>>,
    payload: Doc,
    session: Seq<char>,
)
    ensures
        ({
            let after = store.insert(session_key(payload), state_text(payload));
            &&& found_reply(held(after, session_key(payload))) == (
                200u16,
                Some(state_text(payload)),
            )
            &&& session != session_key(payload) ==> found_reply(held(after, session))
                == found_reply(held(store, session))
        }),
{
}

/// A state that is given as text, under a named session, is written under that name just as it
/// was given.
pub proof fn given_state_is_kept(session: Seq<char>, state: Seq<char>, others: Map<Seq<char>, Doc>)
    ensures
        ({
            let payload = Doc::Object(
                others.insert("session_id"@, Doc::Text(session)).insert(
                    "state_json"@,
                    Doc::Text(state),
                ),
            );
            session_key(payload) == session && state_text(payload) == state
        }),
{
    reveal_strlit("session_id");
    reveal_strlit("state_json");
    assert("session_id"@[1] != "state_json"@[1]);
}

/// A payload that names a session by a text is saved under that name, whatever else it holds, and
/// any other payload under the shared name.
pub proof fn named_session_is_the_key(m: Map<Seq<char>, Doc>, id: Seq<char>, other: Doc, d: Doc)
    ensures
        session_key(Doc::Object(m.insert("session_id"@, Doc::Text(id)))) == id,
        !(other is Text) ==> session_key(Doc::Object(m.insert("session_id"@, other)))
            == "global_tv_state"@,
        session_key(Doc::Object(m.remove("session_id"@))) == "global_tv_state"@,
        !(d is Object) ==> session_key(d) == "global_tv_state"@,
{
}

/// A state given as text is saved as that text, whatever else the payload holds.
pub proof fn given_text_is_saved(m: Map<Seq<char>, Doc>, text: Seq<char>)
    ensures
        state_text(Doc::Object(m.insert("state_json"@, Doc::Text(text)))) == text,
{
}

/// A state that is not given as text is written as JSON: the member where there is one, and else
/// the whole payload.
pub proof fn other_state_is_written(m: Map<Seq<char>, Doc>, state: Doc, other: Doc, d: Doc)
    requires
        !(other is Text),
    ensures
        state_text(Doc::Object(m.remove("state_json"@).insert("state"@, state))) == json_text(
            state,
        ),
        state_text(Doc::Object(m.insert("state_json"@, other).insert("state"@, state)))
            == json_text(state),
        ({
            let payload = Doc::Object(m.remove("state_json"@).remove("state"@));
            state_text(payload) == json_text(payload)
        }),
        ({
            let payload = Doc::Object(m.insert("state_json"@, other).remove("state"@));
            state_text(payload) == json_text(payload)
        }),
        !(d is Object) ==> state_text(d) == json_text(d),
{
    reveal_strlit("state_json");
    reveal_strlit("state");
    assert("state_json"@.len() != "state"@.len());
}

/// What is found is replied with as it is, and what is not found is not.
pub proof fn found_state_is_replied(state: Seq<char>)
    ensures
        found_reply(Some(state)) == (200u16, Some(state)),
        found_reply(None) == (404u16, None::<Seq<char>>),
{
}

/// A session that saves its state, as text or as a document, gets it back when it loads, whatever
/// else it sent and whatever the store held.
pub proof fn session_gets_its_state_back(
    store: Map<Seq<char>, Seq<char>>,
    m: Map<Seq<char>, Doc>,
    id: Seq<char>,
    text: Seq<char>,
    state: Doc,
)
    ensures
        ({
            let payload = Doc::Object(
                m.insert("session_id"@, Doc::Text(id)).insert("state_json"@, Doc::Text(text)),
            );
            let after = store.insert(session_key(payload), state_text(payload));
            after.contains_key(id) && after[id] == text && found_reply(held(after, id)) == (
                200u16,
                Some(text),
            )
        }),
        ({
            let payload = Doc::Object(
                m.remove("state_json"@).insert("session_id"@, Doc::Text(id)).insert(
                    "state"@,
                    state,
                ),
            );
            let after = store.insert(session_key(payload), state_text(payload));
            after.contains_key(id) && after[id] == json_text(state) && found_reply(held(after, id))
                == (200u16, Some(json_text(state)))
        }),
{
    reveal_strlit("session_id");
    reveal_strlit("state_json");
    reveal_strlit("state");
    assert("session_id"@[1] != "state_json"@[1]);
    assert("state_json"@.len() != "state"@.len());
    assert("session_id"@.len() != "state"@.len());
}

/// A payload that is saved under a named session, with the state as a document, is written under
/// that name as the text of that document, and kept for thirty days.
pub proof fn save_writes_under_the_name(
    payload: &Json,
    m: Map<Seq<char>, Doc>,
    id: Seq<char>,
    state: Doc,
    r: Result<ChartWrite, u16>,
)
    requires
        call_ensures(save_chart_state, (true, payload), r),
        payload@ == Doc::Object(
            m.remove("state_json"@).insert("session_id"@, Doc::Text(id)).insert("state"@, state),
        ),
    ensures
        r matches Ok(write) && write.key@ == id && write.value@ == json_text(state)
            && write.ttl_secs == 30 * 24 * 60 * 60 && write.status == 200,
{
    reveal_strlit("session_id");
    reveal_strlit("state_json");
    reveal_strlit("state");
    assert("session_id"@[1] != "state_json"@[1]);
    assert("state_json"@.len() != "state"@.len());
    assert("session_id"@.len() != "state"@.len());
}

/// The key that a session reads when it loads is the one under which it saved, and what it saved
/// there is the text of its state.
pub proof fn load_gives_back_what_save_wrote(
    payload: &Json,
    m: Map<Seq<char>, Doc>,
    id: String,
    state: Doc,
    saved: Result<ChartWrite, u16>,
    loaded: Result<String, u16>,
)
    requires
        payload@ == Doc::Object(
            m.remove("state_json"@).insert("session_id"@, Doc::Text(id@)).insert("state"@, state),
        ),
        call_ensures(save_chart_state, (true, payload), saved),
        call_ensures(load_chart_state, (true, Some(id)), loaded),
    ensures
        saved is Ok,
        loaded matches Ok(key) && key@ == saved->Ok_0.key@,
        saved->Ok_0.value@ == json_text(state),
{
    save_writes_under_the_name(payload, m, id@, state, saved);
}

} // verus!
