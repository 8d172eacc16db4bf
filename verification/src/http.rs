//! What the routes share: replies, header values and status codes.

use crate::json::{member, Doc, Json};
use vstd::prelude::*;

verus! {

/// A reply whose body is a JSON document.
#[derive(Debug, PartialEq)]
pub struct JsonReply {
    pub status: u16,
    pub body: Json,
}

/// One header as an upstream sent it: a lower-case name and the raw value.
#[derive(Debug, PartialEq, Eq)]
pub struct RawHeader {
    pub name: String,
    pub value: Vec<u8>,
}

/// The document that reports an error.
pub open spec fn error_doc(message: Seq<char>) -> Doc {
    Doc::Object(
        Map::empty().insert("ok"@, Doc::Bool(false)).insert("error"@, Doc::Text(message)),
    )
}

/// Reports an error as a JSON document.
pub fn error_body(message: &str) -> (r: Json)
    ensures
        r@ == error_doc(message@),
{
    let mut members: Vec<(String, Json)> = Vec::new();
    Json::add_member(&mut members, "ok", Json::Bool(false));
    Json::add_member(&mut members, "error", Json::text(message));
    Json::Object(members)
}

/// The reply where an upstream failed.
pub fn bad_gateway(err: &str) -> (r: JsonReply)
    ensures
        r.status == 502,
        r.body@ == error_doc(err@),
{
    JsonReply { status: 502, body: error_body(err) }
}

/// The bytes that may stand in a header value that is read as text: visible ASCII, the space
/// and the tab.
pub open spec fn is_visible(b: u8) -> bool {
    32 <= b < 127 || b == 9
}

/// A header value as text, where it holds visible ASCII only.
pub open spec fn visible_text(value: Seq<u8>) -> Option<Seq<char>> {
    if forall|i: int| 0 <= i < value.len() ==> is_visible(#[trigger] value[i]) {
        Some(Seq::new(value.len(), |i: int| value[i] as char))
    } else {
        None
    }
}

/// Reads a header value as text.
pub fn header_text(value: &Vec<u8>) -> (r: Option<String>)
    ensures
        match r {
            Some(s) => visible_text(value@) == Some(s@),
            None => visible_text(value@) is None,
        },
{
    let mut r = String::new();
    let n: usize = value.len();
    for i in 0..n
        invariant
            n == value@.len(),
            forall|k: int| 0 <= k < i ==> is_visible(#[trigger] value@[k]),
            r@ == Seq::new(i as nat, |k: int| value@[k] as char),
    {
        let b: u8 = value[i];
        if !(b == 9 || (b >= 32 && b < 127)) {
            assert(!is_visible(value@[i as int]));
            return None;
        }
        r.push(b as char);
        assert(r@ =~= Seq::new((i + 1) as nat, |k: int| value@[k] as char));
    }
    assert(r@ == Seq::new(value@.len(), |k: int| value@[k] as char));
    Some(r)
}

/// A text that may be sent as a header value: no control characters but the tab.
pub open spec fn is_sendable(s: Seq<char>) -> bool {
    forall|i: int|
        0 <= i < s.len() ==> (#[trigger] s[i] as u32 >= 32 && s[i] as u32 != 127 || s[i] as u32
            == 9)
}

/// Whether a text may be sent as a header value.
pub fn sendable(s: &Vec<char>) -> (r: bool)
    ensures
        r == is_sendable(s@),
{
    let n: usize = s.len();
    for i in 0..n
        invariant
            n == s@.len(),
            is_sendable(s@.take(i as int)),
    {
        let u: u32 = s[i] as u32;
        assert(s@.take(i + 1) == s@.take(i as int).push(s@[i as int]));
        if !(u == 9 || (u >= 32 && u != 127)) {
            assert(s@[i as int] as u32 == u);
            return false;
        }
    }
    assert(s@.take(n as int) == s@);
    true
}

/// Bytes that make a header value: no control characters but the tab.
pub open spec fn is_header_value(value: Seq<u8>) -> bool {
    forall|i: int|
        0 <= i < value.len() ==> (#[trigger] value[i] >= 32 && value[i] != 127 || value[i] == 9)
}

/// Whether bytes make a header value.
pub fn valid_header_value(value: &Vec<u8>) -> (r: bool)
    ensures
        r == is_header_value(value@),
{
    let n: usize = value.len();
    for i in 0..n
        invariant
            n == value@.len(),
            is_header_value(value@.take(i as int)),
    {
        let b: u8 = value[i];
        assert(value@.take(i + 1) == value@.take(i as int).push(b));
        if !(b == 9 || (b >= 32 && b != 127)) {
            assert(value@[i as int] == b);
            return false;
        }
    }
    assert(value@.take(n as int) == value@);
    true
}

/// The views of a list of header names and values.
pub open spec fn header_views(v: Seq<(String, String)>) -> Seq<(Seq<char>, Seq<char>)> {
    Seq::new(v.len(), |i: int| (v[i].0@, v[i].1@))
}

/// The status codes of success.
pub open spec fn is_success(status: u16) -> bool {
    200 <= status < 300
}

/// The status under which an upstream's status is passed on: the same where it is a status code
/// at all.
pub open spec fn passed_status(status: u16) -> u16 {
    if 100 <= status < 1000 {
        status
    } else {
        500
    }
}

/// Passes on an upstream's status.
pub fn pass_status(status: u16) -> (r: u16)
    ensures
        r == passed_status(status),
{
    if status >= 100 && status < 1000 {
        status
    } else {
        500
    }
}

/// Success is a status from 200 to 299.
pub proof fn success_by_number(status: u16)
    ensures
        200 <= status <= 299 ==> is_success(status),
        status < 200 || status > 299 ==> !is_success(status),
{
}

/// A status of three digits passes unchanged, and any other becomes 500.
pub proof fn status_by_number(status: u16)
    ensures
        100 <= status <= 999 ==> passed_status(status) == status,
        status < 100 || status > 999 ==> passed_status(status) == 500,
{
}

/// The document that reports an error says that it is one, gives the message whole, and says
/// nothing else.
pub proof fn error_doc_gives_the_message(message: Seq<char>, other: Seq<char>)
    ensures
        member(error_doc(message), "ok"@) == Some(Doc::Bool(false)),
        member(error_doc(message), "error"@) == Some(Doc::Text(message)),
        other != "ok"@ && other != "error"@ ==> member(error_doc(message), other) is None,
{
    reveal_strlit("ok");
    reveal_strlit("error");
    assert("ok"@.len() != "error"@.len());
}

/// A header value is read as text byte by byte: visible ASCII, the space and the tab each as
/// itself.
pub proof fn header_text_by_byte(b: u8)
    ensures
        32 <= b <= 126 || b == 9 ==> visible_text(seq![b]) == Some(seq![b as char]),
        !(32 <= b <= 126 || b == 9) ==> visible_text(seq![b]) is None,
        visible_text(Seq::empty()) == Some(Seq::<char>::empty()),
{
    let v = seq![b];
    assert(v[0] == b);
    if 32 <= b <= 126 || b == 9 {
        assert(Seq::new(v.len(), |i: int| v[i] as char) =~= seq![b as char]);
    }
    assert(Seq::new(0, |i: int| Seq::<u8>::empty()[i] as char) =~= Seq::<char>::empty());
}

/// A header value is read as text part by part, and cannot be read where a part cannot.
pub proof fn header_text_in_parts(a: Seq<u8>, b: Seq<u8>)
    ensures
        visible_text(a) is Some && visible_text(b) is Some ==> visible_text(a + b) == Some(
            visible_text(a)->0 + visible_text(b)->0,
        ),
        visible_text(a) is None || visible_text(b) is None ==> visible_text(a + b) is None,
{
    let s = a + b;
    if visible_text(a) is Some && visible_text(b) is Some {
        assert forall|i: int| 0 <= i < s.len() implies is_visible(#[trigger] s[i]) by {
            if i < a.len() {
                assert(is_visible(a[i]));
            } else {
                assert(is_visible(b[i - a.len()]));
            }
        }
        assert(visible_text(s)->0 =~= visible_text(a)->0 + visible_text(b)->0);
    }
    if visible_text(s) is Some {
        assert forall|i: int| 0 <= i < a.len() implies is_visible(#[trigger] a[i]) by {
            assert(is_visible(s[i]));
        }
        assert forall|i: int| 0 <= i < b.len() implies is_visible(#[trigger] b[i]) by {
            assert(is_visible(s[i + a.len()]));
        }
    }
}

/// Bytes make a header value, and characters can be sent in one, where each of them does: control
/// characters other than the tab do not.
pub proof fn header_values_in_parts(a: Seq<u8>, b: Seq<u8>, x: u8)
    ensures
        is_header_value(a + b) == (is_header_value(a) && is_header_value(b)),
        is_header_value(seq![x]) == (x == 9 || (x >= 32 && x != 127)),
        is_header_value(Seq::empty()),
{
    let s = a + b;
    if is_header_value(s) {
        assert forall|i: int| 0 <= i < a.len() implies (#[trigger] a[i] >= 32 && a[i] != 127
            || a[i] == 9) by {
            assert(s[i] == a[i]);
        }
        assert forall|i: int| 0 <= i < b.len() implies (#[trigger] b[i] >= 32 && b[i] != 127
            || b[i] == 9) by {
            assert(s[i + a.len()] == b[i]);
        }
    }
    assert(seq![x][0] == x);
}

/// A text can be sent in a header where each of its characters can: control characters other than
/// the tab cannot.
pub proof fn sendable_in_parts(a: Seq<char>, b: Seq<char>, c: char)
    ensures
        is_sendable(a + b) == (is_sendable(a) && is_sendable(b)),
        is_sendable(seq![c]) == (c == '\t' || (c as u32 >= 32 && c as u32 != 127)),
        is_sendable(Seq::empty()),
{
    let s = a + b;
    if is_sendable(s) {
        assert forall|i: int| 0 <= i < a.len() implies (#[trigger] a[i] as u32 >= 32 && a[i] as u32
            != 127 || a[i] as u32 == 9) by {
            assert(s[i] == a[i]);
        }
        assert forall|i: int| 0 <= i < b.len() implies (#[trigger] b[i] as u32 >= 32 && b[i] as u32
            != 127 || b[i] as u32 == 9) by {
            assert(s[i + a.len()] == b[i]);
        }
    }
    assert(seq![c][0] == c);
}

/// The views of headers are the views of each name and value.
pub proof fn header_views_are_elementwise(v: Seq<(String, String)>, i: int)
    requires
        0 <= i < v.len(),
    ensures
        header_views(v).len() == v.len(),
        header_views(v)[i] == (v[i].0@, v[i].1@),
{
}

} // verus!
