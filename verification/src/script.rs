//! The script that is put into the chart widget's pages.

use crate::text::{includes, occurs_at};
use vstd::prelude::*;

verus! {

/// The script that copies the widget's stored state to the backend, up to the backend's address.
pub const SYNC_SCRIPT_HEAD: &'static str = "
            <script>
                (function() {
                    setInterval(() => {
                        try {
                            const statePayload = {};
                            let hasData = false;
                            for (let i = 0; i < localStorage.length; i++) {
                                const key = localStorage.key(i);
                                if (key && (key.startsWith('ss-') || key.startsWith('tradingview_') || key.includes('tv-'))) {
                                    statePayload[key] = localStorage.getItem(key);
                                    hasData = true;
                                }
                            }
                            if (hasData) {
                                fetch('";

/// The script that copies the widget's stored state to the backend, after the backend's address.
pub const SYNC_SCRIPT_TAIL: &'static str = "/api/chart/save', {
                                    method: 'POST',
                                    headers: {'Content-Type': 'application/json'},
                                    body: JSON.stringify({ session_id: 'global_tv_state', state_json: JSON.stringify(statePayload) })
                                }).catch(() => {});
                            }
                        } catch(e) {}
                    }, 5000);
                })();
            </script>
            ";

/// The script for a backend.
pub open spec fn sync_script(backend: Seq<char>) -> Seq<char> {
    SYNC_SCRIPT_HEAD@ + backend + SYNC_SCRIPT_TAIL@
}

/// The script has no colon before the backend's address, and each colon behind it is followed by
/// a space.
pub proof fn script_colons()
    ensures
        SYNC_SCRIPT_HEAD@.len() > 0,
        SYNC_SCRIPT_HEAD@[0] == '\n',
        forall|i: int| 0 <= i < SYNC_SCRIPT_HEAD@.len() ==> #[trigger] SYNC_SCRIPT_HEAD@[i] != ':',
        SYNC_SCRIPT_TAIL@.len() > 1,
        SYNC_SCRIPT_TAIL@[0] == '/',
        SYNC_SCRIPT_TAIL@[1] == 'a',
        forall|i: int|
            0 <= i < SYNC_SCRIPT_TAIL@.len() && #[trigger] SYNC_SCRIPT_TAIL@[i] == ':' ==> i + 1
                < SYNC_SCRIPT_TAIL@.len() && SYNC_SCRIPT_TAIL@[i + 1] == ' ',
{
    script_text();
}

/// What the two parts of the script say, and which characters stand in them.
proof fn script_text()
    ensures
        SYNC_SCRIPT_HEAD@.len() > 7,
        SYNC_SCRIPT_HEAD@[0] == '\n',
        forall|i: int| 0 <= i < SYNC_SCRIPT_HEAD@.len() ==> #[trigger] SYNC_SCRIPT_HEAD@[i] != ':',
        SYNC_SCRIPT_TAIL@.len() > 16,
        SYNC_SCRIPT_TAIL@[0] == '/',
        SYNC_SCRIPT_TAIL@[1] == 'a',
        forall|i: int|
            0 <= i < SYNC_SCRIPT_TAIL@.len() && #[trigger] SYNC_SCRIPT_TAIL@[i] == ':' ==> i + 1
                < SYNC_SCRIPT_TAIL@.len() && SYNC_SCRIPT_TAIL@[i + 1] == ' ',
        SYNC_SCRIPT_HEAD@.subrange(
            SYNC_SCRIPT_HEAD@.len() - 7,
            SYNC_SCRIPT_HEAD@.len() as int,
        ) == "fetch('"@,
        SYNC_SCRIPT_TAIL@.subrange(0, 16) == "/api/chart/save'"@,
        occurs_at(SYNC_SCRIPT_HEAD@, "setInterval(() => {"@, 72),
        occurs_at(SYNC_SCRIPT_HEAD@, "key.startsWith('ss-') || key.startsWith('tradingview_') || key.includes('tv-')"@, 409),
        occurs_at(SYNC_SCRIPT_HEAD@, "statePayload[key] = localStorage.getItem(key);"@, 528),
        occurs_at(SYNC_SCRIPT_TAIL@, "method: 'POST'"@, 56),
        occurs_at(SYNC_SCRIPT_TAIL@, "headers: {'Content-Type': 'application/json'}"@, 108),
        occurs_at(SYNC_SCRIPT_TAIL@, "{ session_id: 'global_tv_state', state_json: JSON.stringify(statePayload) }"@, 212),
        occurs_at(SYNC_SCRIPT_TAIL@, "}, 5000);"@, 429),
        occurs_at(SYNC_SCRIPT_TAIL@, "</script>"@, 473),
{
    reveal_strlit(
        "
            <script>
                (function() {
                    setInterval(() => {
                        try {
                            const statePayload = {};
                            let hasData = false;
                            for (let i = 0; i < localStorage.length; i++) {
                                const key = localStorage.key(i);
                                if (key && (key.startsWith('ss-') || key.startsWith('tradingview_') || key.includes('tv-'))) {
                                    statePayload[key] = localStorage.getItem(key);
                                    hasData = true;
                                }
                            }
                            if (hasData) {
                                fetch('",
    );
    reveal_strlit(
        "/api/chart/save', {
                                    method: 'POST',
                                    headers: {'Content-Type': 'application/json'},
                                    body: JSON.stringify({ session_id: 'global_tv_state', state_json: JSON.stringify(statePayload) })
                                }).catch(() => {});
                            }
                        } catch(e) {}
                    }, 5000);
                })();
            </script>
            ",
    );
    reveal_strlit("fetch('");
    reveal_strlit("/api/chart/save'");
    reveal_strlit("setInterval(() => {");
    reveal_strlit("key.startsWith('ss-') || key.startsWith('tradingview_') || key.includes('tv-')");
    reveal_strlit("statePayload[key] = localStorage.getItem(key);");
    reveal_strlit("method: 'POST'");
    reveal_strlit("headers: {'Content-Type': 'application/json'}");
    reveal_strlit("{ session_id: 'global_tv_state', state_json: JSON.stringify(statePayload) }");
    reveal_strlit("}, 5000);");
    reveal_strlit("</script>");
    assert(SYNC_SCRIPT_HEAD@.subrange(72, 91) =~= "setInterval(() => {"@);
    assert(SYNC_SCRIPT_HEAD@.subrange(409, 487) =~= "key.startsWith('ss-') || key.startsWith('tradingview_') || key.includes('tv-')"@);
    assert(SYNC_SCRIPT_HEAD@.subrange(528, 574) =~= "statePayload[key] = localStorage.getItem(key);"@);
    assert(SYNC_SCRIPT_TAIL@.subrange(56, 70) =~= "method: 'POST'"@);
    assert(SYNC_SCRIPT_TAIL@.subrange(108, 153) =~= "headers: {'Content-Type': 'application/json'}"@);
    assert(SYNC_SCRIPT_TAIL@.subrange(212, 287) =~= "{ session_id: 'global_tv_state', state_json: JSON.stringify(statePayload) }"@);
    assert(SYNC_SCRIPT_TAIL@.subrange(429, 438) =~= "}, 5000);"@);
    assert(SYNC_SCRIPT_TAIL@.subrange(473, 482) =~= "</script>"@);
    let n = SYNC_SCRIPT_HEAD@.len() as int;
    assert(SYNC_SCRIPT_HEAD@.subrange(n - 7, n) =~= "fetch('"@);
    assert(SYNC_SCRIPT_TAIL@.subrange(0, 16) =~= "/api/chart/save'"@);
}

/// The script posts to the address under which the given backend saves charts, every five seconds,
/// the stored values that belong to the widget, as text, under the shared session.
pub proof fn script_saves_to_the_backend(backend: Seq<char>)
    ensures
        ({
            let n = SYNC_SCRIPT_HEAD@.len() as int;
            &&& sync_script(backend) == SYNC_SCRIPT_HEAD@ + backend + SYNC_SCRIPT_TAIL@
            &&& occurs_at(sync_script(backend), "fetch('"@ + backend + "/api/chart/save'"@, n - 7)
        }),
        includes(
            SYNC_SCRIPT_HEAD@,
            "setInterval(() => {"@,
        ),
        includes(
            SYNC_SCRIPT_HEAD@,
            "key.startsWith('ss-') || key.startsWith('tradingview_') || key.includes('tv-')"@,
        ),
        includes(
            SYNC_SCRIPT_HEAD@,
            "statePayload[key] = localStorage.getItem(key);"@,
        ),
        includes(
            SYNC_SCRIPT_TAIL@,
            "method: 'POST'"@,
        ),
        includes(
            SYNC_SCRIPT_TAIL@,
            "headers: {'Content-Type': 'application/json'}"@,
        ),
        includes(
            SYNC_SCRIPT_TAIL@,
            "{ session_id: 'global_tv_state', state_json: JSON.stringify(statePayload) }"@,
        ),
        includes(
            SYNC_SCRIPT_TAIL@,
            "}, 5000);"@,
        ),
        includes(
            SYNC_SCRIPT_TAIL@,
            "</script>"@,
        ),
{
    script_text();
    reveal_strlit("fetch('");
    reveal_strlit("/api/chart/save'");
    let head = SYNC_SCRIPT_HEAD@;
    let tail = SYNC_SCRIPT_TAIL@;
    let n = head.len() as int;
    let s = sync_script(backend);
    let call = "fetch('"@ + backend + "/api/chart/save'"@;
    assert(s.subrange(n - 7, n - 7 + call.len()) =~= head.subrange(n - 7, n) + backend
        + tail.subrange(0, 16));
}

} // verus!
