//! What the service says of itself.

use crate::json::{member, Doc, Json};
use vstd::prelude::*;

verus! {

/// The document that names the service.
pub open spec fn root_doc() -> Doc {
    Doc::Object(
        Map::empty().insert("ok"@, Doc::Bool(true)).insert(
            "service"@,
            Doc::Text("omni-stream-backend-rust"@),
        ),
    )
}

/// The document that lists the proxy routes.
pub open spec fn routes_doc() -> Doc {
    Doc::Object(
        Map::empty().insert("kucoin"@, Doc::Text("/api/kucoin/bullet-public"@)).insert(
            "nim"@,
            Doc::Text("/api/nim/chat/completions"@),
        ).insert("phemex_ws"@, Doc::Text("/api/ws/phemex"@)),
    )
}

/// The document of the health check at a time in seconds since the epoch.
pub open spec fn health_doc(time: u64) -> Doc {
    Doc::Object(
        Map::empty().insert("ok"@, Doc::Bool(true)).insert(
            "service"@,
            Doc::Text("omni-stream-backend-rust"@),
        ).insert("time"@, Doc::Integer(time as int)).insert("routes"@, routes_doc()),
    )
}

/// Basic service metadata.
pub fn root() -> (r: Json)
    ensures
        r@ == root_doc(),
{
    let mut members: Vec<(String, Json)> = Vec::new();
    Json::add_member(&mut members, "ok", Json::Bool(true));
    Json::add_member(&mut members, "service", Json::text("omni-stream-backend-rust"));
    Json::Object(members)
}

/// The health check.
pub fn healthz(time: u64) -> (r: Json)
    ensures
        r@ == health_doc(time),
{
    let mut routes: Vec<(String, Json)> = Vec::new();
    Json::add_member(&mut routes, "kucoin", Json::text("/api/kucoin/bullet-public"));
    Json::add_member(&mut routes, "nim", Json::text("/api/nim/chat/completions"));
    Json::add_member(&mut routes, "phemex_ws", Json::text("/api/ws/phemex"));
    let mut members: Vec<(String, Json)> = Vec::new();
    Json::add_member(&mut members, "ok", Json::Bool(true));
    Json::add_member(&mut members, "service", Json::text("omni-stream-backend-rust"));
    Json::add_member(&mut members, "time", Json::integer(time as i128));
    Json::add_member(&mut members, "routes", Json::Object(routes));
    Json::Object(members)
}

/// The health check tells the time that it was asked at, that the service is well, its name and its
/// routes, and nothing else.
pub proof fn health_tells_the_time(time: u64, other: Seq<char>)
    ensures
        member(health_doc(time), "time"@) == Some(Doc::Integer(time as int)),
        member(health_doc(time), "ok"@) == Some(Doc::Bool(true)),
        member(health_doc(time), "service"@) == Some(Doc::Text("omni-stream-backend-rust"@)),
        member(health_doc(time), "routes"@) == Some(routes_doc()),
        other != "ok"@ && other != "service"@ && other != "time"@ && other != "routes"@ ==> member(
            health_doc(time),
            other,
        ) is None,
{
    reveal_strlit("ok");
    reveal_strlit("service");
    reveal_strlit("time");
    reveal_strlit("routes");
    assert("ok"@.len() == 2 && "service"@.len() == 7 && "time"@.len() == 4 && "routes"@.len()
        == 6);
}

} // verus!
