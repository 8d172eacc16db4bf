//! The proxy for the exchange's public token endpoint.

use crate::http::{
    bad_gateway, error_doc, header_views, is_header_value, valid_header_value, JsonReply,
};
use vstd::prelude::*;
use vstd::string::*;
use vstd::utf8::*;

verus! {

/// A request to an upstream, sent as a POST.
#[derive(Debug, PartialEq, Eq)]
pub struct UpstreamRequest {
    pub url: String,
    pub headers: Vec<(String, String)>,
    pub body: String,
}

/// A response that is passed on.
#[derive(Debug, PartialEq, Eq)]
pub struct PassedResponse {
    pub status: u16,
    pub content_type: Vec<u8>,
    pub cache_control: String,
    pub body: Vec<u8>,
}

/// Where a request to the exchange failed.
#[derive(Debug, PartialEq, Eq)]
pub enum KucoinFailure {
    Request,
    BodyRead,
    ResponseBuild,
}

/// The request that asks the exchange for a token.
pub fn kucoin_request(kucoin_base: &str) -> (r: UpstreamRequest)
    ensures
        r.url@ == kucoin_base@ + "/api/v1/bullet-public"@,
        header_views(r.headers@) == seq![
            ("Content-Type"@, "application/json"@),
            ("User-Agent"@, "OmniStream/1.0"@),
        ],
        r.body@ == "{}"@,
{
    let mut url = kucoin_base.to_owned();
    url.append("/api/v1/bullet-public");
    let mut headers: Vec<(String, String)> = Vec::new();
    headers.push(("Content-Type".to_owned(), "application/json".to_owned()));
    headers.push(("User-Agent".to_owned(), "OmniStream/1.0".to_owned()));
    assert(header_views(headers@) =~= seq![
        ("Content-Type"@, "application/json"@),
        ("User-Agent"@, "OmniStream/1.0"@),
    ]);
    UpstreamRequest { url, headers, body: "{}".to_owned() }
}

/// Passes on the exchange's response as it is, marked as not to be stored; a missing content type
/// is taken to be JSON.
pub fn kucoin_bullet(status: u16, content_type: Option<Vec<u8>>, body: Vec<u8>) -> (r:
    PassedResponse)
    ensures
        r.status == status,
        r.body@ == body@,
        r.cache_control@ == "no-store"@,
        r.content_type@ == match content_type {
            Some(v) => if is_header_value(v@) {
                v@
            } else {
                encode_utf8("application/json"@)
            },
            None => encode_utf8("application/json"@),
        },
{
    let content_type = match content_type {
        Some(v) => if valid_header_value(&v) {
            v
        } else {
            "application/json".as_bytes_vec()
        },
        None => "application/json".as_bytes_vec(),
    };
    PassedResponse { status, content_type, cache_control: "no-store".to_owned(), body }
}

/// What is said before the cause of a failure.
pub open spec fn failure_prefix(failure: KucoinFailure) -> Seq<char> {
    match failure {
        KucoinFailure::Request => "KuCoin request failed: "@,
        KucoinFailure::BodyRead => "KuCoin body read failed: "@,
        KucoinFailure::ResponseBuild => "response build failed: "@,
    }
}

/// The reply where the exchange could not be asked.
pub fn kucoin_failure(failure: KucoinFailure, cause: &str) -> (r: JsonReply)
    ensures
        r.status == 502,
        r.body@ == error_doc(failure_prefix(failure) + cause@),
{
    let mut message = match failure {
        KucoinFailure::Request => "KuCoin request failed: ".to_owned(),
        KucoinFailure::BodyRead => "KuCoin body read failed: ".to_owned(),
        KucoinFailure::ResponseBuild => "response build failed: ".to_owned(),
    };
    message.append(cause);
    bad_gateway(message.as_str())
}

/// The exchange's response passes unchanged: whatever it is, its status and its body are the ones
/// that came, and so is its content type where it has a valid one.
pub proof fn response_passes_unchanged(
    status: u16,
    content_type: Option<Vec<u8>>,
    body: Vec<u8>,
    passed: PassedResponse,
)
    requires
        call_ensures(kucoin_bullet, (status, content_type, body), passed),
    ensures
        passed.status == status,
        passed.body@ == body@,
        content_type matches Some(v) ==> (is_header_value(v@) ==> passed.content_type@ == v@),
        passed.cache_control@ == "no-store"@,
{
}

} // verus!
